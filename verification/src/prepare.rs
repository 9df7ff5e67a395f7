//! Preparing SSH between the managing host, the source node and the target node.
//!
//! The preparation alternates outside work and decisions. `prepare_ssh` decides from what has been
//! done so far what is to be done next, and in the end what the result is.
use crate::command::{
    connection_host, merge_command_output, normalize_host_for_connection, normalize_ssh_port,
    output_text, scp_arguments, scp_arguments_of, ssh_port, stdout_text, CommandOutput,
};
use crate::command::lossy_text;
use crate::names::{
    key_path_verdict, ssh_user_verdict, verify_offsite_ssh_key_path, verify_offsite_ssh_user,
};
use crate::number::decimal;
use crate::pieces::{
    law_lines_come_one_by_one, law_words_come_one_by_one, lines, lines_of, split_whitespace, words_of,
};
use crate::shell::escaped;
use crate::sync::{push_decimal, push_escaped};
use crate::text::{
    contains, has_prefix, has_suffix, is_white, lemma_order_where_put, lemma_stands_where_put, occurs, opt_text,
    same, stand_in_order, texts, trim, trimmed,
};
use crate::types::{
    outcome, steps_view, text_outcome, Error, OffsiteSshKeygenRequest, OffsiteSshKeygenResult,
    OffsiteSshPrepareRequest, OffsiteSshPrepareResult, OffsiteSshPrepareStep, StepView,
};
use vstd::prelude::*;

verus! {

// ---------------------------------------------------------------------------------------------
// Steps
// ---------------------------------------------------------------------------------------------

/// A step of which only the outcome is told.
pub open spec fn plain_step(name: Seq<char>, ok: bool, message: Seq<char>) -> StepView {
    StepView { code: Some(name), field: None, name, ok, message, remediation: None }
}

/// A step that failed.
pub open spec fn failed_step(name: Seq<char>, message: Seq<char>, remediation: Option<Seq<char>>) -> StepView {
    StepView { code: Some(name), field: None, name, ok: false, message, remediation }
}

/// A step that was not taken because another one failed.
pub open spec fn skipped_step(
    name: Seq<char>,
    message: Seq<char>,
    remediation: Option<Seq<char>>,
) -> StepView {
    StepView { code: Some("skipped"@), field: None, name, ok: false, message, remediation }
}

/// A step that failed, with a code of its own and the field that it is about.
pub open spec fn coded_step(
    name: Seq<char>,
    code: Seq<char>,
    field: Option<Seq<char>>,
    message: Seq<char>,
    remediation: Option<Seq<char>>,
) -> StepView {
    StepView { code: Some(code), field, name, ok: false, message, remediation }
}

pub fn ssh_prepare_step(name: &str, ok: bool, message: String) -> (r: OffsiteSshPrepareStep)
    ensures
        r@ == plain_step(name@, ok, message@),
{
    OffsiteSshPrepareStep {
        code: Some(name.to_owned()),
        field: None,
        name: name.to_owned(),
        ok,
        message,
        remediation: None,
    }
}

pub fn ssh_prepare_step_err(name: &str, message: String, remediation: Option<String>) -> (r:
    OffsiteSshPrepareStep)
    ensures
        r@ == failed_step(name@, message@, opt_text(remediation)),
{
    OffsiteSshPrepareStep {
        code: Some(name.to_owned()),
        field: None,
        name: name.to_owned(),
        ok: false,
        message,
        remediation,
    }
}

pub fn ssh_prepare_step_skipped(name: &str, message: String, remediation: Option<String>) -> (r:
    OffsiteSshPrepareStep)
    ensures
        r@ == skipped_step(name@, message@, opt_text(remediation)),
{
    OffsiteSshPrepareStep {
        code: Some("skipped".to_owned()),
        field: None,
        name: name.to_owned(),
        ok: false,
        message,
        remediation,
    }
}

pub fn ssh_prepare_step_err_with_code(
    name: &str,
    code: &str,
    field: Option<&str>,
    message: String,
    remediation: Option<String>,
) -> (r: OffsiteSshPrepareStep)
    ensures
        r@ == coded_step(
            name@,
            code@,
            match field {
                Some(field) => Some(field@),
                None => None,
            },
            message@,
            opt_text(remediation),
        ),
{
    OffsiteSshPrepareStep {
        code: Some(code.to_owned()),
        field: match field {
            Some(field) => Some(field.to_owned()),
            None => None,
        },
        name: name.to_owned(),
        ok: false,
        message,
        remediation,
    }
}

/// How to let `root` in on a node.
pub const ROOT_REMEDIATION: &'static str = r#", ensure root SSH login is allowed and the public key is present.
Example:
install -d -m 700 /root/.ssh
touch /root/.ssh/authorized_keys
chmod 600 /root/.ssh/authorized_keys
chown -R root:root /root/.ssh
# verify sshd allows key auth for root (PermitRootLogin + PubkeyAuthentication)
# then restart sshd"#;

/// How to let a user in on a node.
pub open spec fn user_remediation(remote: Seq<char>, node: Seq<char>, user: Seq<char>) -> Seq<char> {
    if user == "root"@ {
        "On "@ + remote + "/"@ + node + ROOT_REMEDIATION@
    } else {
        "On "@ + remote + "/"@ + node + ", create or unlock user '"@ + user
            + "' and install the public key.\nExample:\nuseradd -m -s /bin/bash "@ + user
            + " || true\ninstall -d -m 700 ~"@ + user + "/.ssh\ntouch ~"@ + user
            + "/.ssh/authorized_keys\nchown -R "@ + user + ":"@ + user + " ~"@ + user
            + "/.ssh\nchmod 600 ~"@ + user + "/.ssh/authorized_keys"@
    }
}

/// How to let a user in on a node.
pub fn ssh_prepare_user_remediation(remote: &str, node: &str, user: &str) -> (r: String)
    ensures
        r@ == user_remediation(remote@, node@, user@),
{
    let mut text = "On ".to_owned();
    text.append(remote);
    text.append("/");
    text.append(node);
    if same(user, "root") {
        text.append(ROOT_REMEDIATION);
        return text;
    }
    text.append(", create or unlock user '");
    text.append(user);
    text.append("' and install the public key.\nExample:\nuseradd -m -s /bin/bash ");
    text.append(user);
    text.append(" || true\ninstall -d -m 700 ~");
    text.append(user);
    text.append("/.ssh\ntouch ~");
    text.append(user);
    text.append("/.ssh/authorized_keys\nchown -R ");
    text.append(user);
    text.append(":");
    text.append(user);
    text.append(" ~");
    text.append(user);
    text.append("/.ssh\nchmod 600 ~");
    text.append(user);
    text.append("/.ssh/authorized_keys");
    text
}

/// The code of a failed key check.
pub open spec fn key_check_code(message: Seq<char>) -> Seq<char> {
    if occurs(message, "does not exist"@) {
        "missing_private_key"@
    } else if occurs(message, "Permission denied"@) || occurs(message, "not readable"@) {
        "unreadable_private_key"@
    } else {
        "key_check_failed"@
    }
}

/// The code of a failed connection.
pub open spec fn connect_code(message: Seq<char>) -> Seq<char> {
    if occurs(message, "Permission denied"@) {
        "connect_auth_failed"@
    } else {
        "connect_failed"@
    }
}

/// The code of a failed key check.
pub fn key_check_error_code(message: &str) -> (r: &'static str)
    ensures
        r@ == key_check_code(message@),
{
    if contains(message, "does not exist") {
        "missing_private_key"
    } else if contains(message, "Permission denied") || contains(message, "not readable") {
        "unreadable_private_key"
    } else {
        "key_check_failed"
    }
}

/// The code of a failed connection.
pub fn connect_error_code(message: &str) -> (r: &'static str)
    ensures
        r@ == connect_code(message@),
{
    if contains(message, "Permission denied") {
        "connect_auth_failed"
    } else {
        "connect_failed"
    }
}

// ---------------------------------------------------------------------------------------------
// The public key on the managing host
// ---------------------------------------------------------------------------------------------

/// The public key in the file beside the private key: its first line, where that is not blank.
pub open spec fn filed_key(content: Seq<char>) -> Option<Seq<char>> {
    let all = lines_of(content);
    if all.len() > 0 && trimmed(all[0]).len() > 0 {
        Some(trimmed(all[0]))
    } else {
        None
    }
}

/// What `stored_public_key` answers: the key, or nothing where it has to be derived.
pub open spec fn stored_key(path: Seq<char>, private_exists: bool, file: Option<Seq<char>>) -> Result<
    Option<Seq<char>>,
    Seq<char>,
> {
    if !private_exists {
        Err("private key '"@ + path + "' does not exist"@)
    } else {
        Ok(
            match file {
                Some(content) => filed_key(content),
                None => None,
            },
        )
    }
}

/// The public key as it is stored beside the private key. Nothing is given where it has to be
/// derived from the private key.
pub fn stored_public_key(ssh_private_key: &str, private_exists: bool, file: &Option<String>) -> (r:
    Result<Option<String>, Error>)
    ensures
        crate::snapshots::opt_text_outcome(r) == stored_key(
            ssh_private_key@,
            private_exists,
            opt_text(*file),
        ),
{
    if !private_exists {
        return Err(Error::of3("private key '", ssh_private_key, "' does not exist"));
    }
    if let Some(content) = file {
        let all = lines(content.as_str());
        assert(lines_of(content@).len() == all.len());
        if all.len() > 0 {
            assert(lines_of(content@)[0] == all@[0]@);
            let line = trim(all[0].as_str());
            if !line.as_str().is_empty() {
                return Ok(Some(line));
            }
        }
    }
    Ok(None)
}

/// What `key_of_text` answers.
pub open spec fn derived_key(path: Seq<char>, success: bool, all: Seq<char>, stdout: Seq<char>) -> Result<
    Seq<char>,
    Seq<char>,
> {
    if !success {
        Err("failed to derive public key for '"@ + path + "': "@ + all)
    } else if trimmed(stdout).len() == 0 {
        Err("derived public key for '"@ + path + "' is empty"@)
    } else {
        Ok(trimmed(stdout))
    }
}

/// The public key that was derived, given the texts that `ssh-keygen` put out.
pub fn key_of_text(ssh_private_key: &str, success: bool, all: &str, stdout: &str) -> (r: Result<
    String,
    Error,
>)
    ensures
        text_outcome(r) == derived_key(ssh_private_key@, success, all@, stdout@),
{
    if !success {
        let mut message = "failed to derive public key for '".to_owned();
        message.append(ssh_private_key);
        message.append("': ");
        message.append(all);
        return Err(Error { message });
    }
    let public = trim(stdout);
    if public.as_str().is_empty() {
        return Err(Error::of3("derived public key for '", ssh_private_key, "' is empty"));
    }
    Ok(public)
}

/// The public key that `ssh-keygen -y` derived. No output is there where it could not be executed.
pub fn derived_public_key(ssh_private_key: &str, output: &Option<CommandOutput>) -> (r: Result<
    String,
    Error,
>)
    ensures
        text_outcome(r) == (match *output {
            None => Err("failed to derive public key for '"@ + ssh_private_key@ + "'"@),
            Some(output) => derived_key(
                ssh_private_key@,
                output.success,
                output_text(output),
                lossy_text(output.stdout@),
            ),
        }),
{
    match output {
        None => Err(Error::of3("failed to derive public key for '", ssh_private_key, "'")),
        Some(output) => {
            let all = merge_command_output(output);
            let stdout = stdout_text(output);
            key_of_text(ssh_private_key, output.success, all.as_str(), stdout.as_str())
        },
    }
}

// ---------------------------------------------------------------------------------------------
// Scripts
// ---------------------------------------------------------------------------------------------

/// The script that puts a public key among a user's authorized keys, once.
pub open spec fn install_key_script_of(public_key: Seq<char>) -> Seq<char> {
    "set -eu\ninstall -d -m 700 \"$HOME/.ssh\"\ntouch \"$HOME/.ssh/authorized_keys\"\nchmod 600 \"$HOME/.ssh/authorized_keys\"\nif ! grep -qxF "@
        + escaped(public_key) + " \"$HOME/.ssh/authorized_keys\"; then\nprintf '%s\\n' "@ + escaped(
        public_key,
    ) + " >> \"$HOME/.ssh/authorized_keys\"\nfi\n"@
}

/// The script that puts a public key among a user's authorized keys, once.
pub fn install_key_script(public_key: &str) -> (r: String)
    ensures
        r@ == install_key_script_of(public_key@),
{
    let mut script =
        "set -eu\ninstall -d -m 700 \"$HOME/.ssh\"\ntouch \"$HOME/.ssh/authorized_keys\"\nchmod 600 \"$HOME/.ssh/authorized_keys\"\nif ! grep -qxF ".to_owned();
    push_escaped(&mut script, public_key);
    script.append(" \"$HOME/.ssh/authorized_keys\"; then\nprintf '%s\\n' ");
    push_escaped(&mut script, public_key);
    script.append(" >> \"$HOME/.ssh/authorized_keys\"\nfi\n");
    script
}

/// The script that settles a copied private key on the source node.
pub open spec fn settle_key_script_of(key: Seq<char>) -> Seq<char> {
    let public = key + ".pub"@;
    "set -eu\ninstall -d -m 700 \"$HOME/.ssh\"\nchmod 600 "@ + escaped(key) + "\nif [ ! -s "@
        + escaped(public) + " ]; then\nssh-keygen -y -f "@ + escaped(key) + " > "@ + escaped(public)
        + "\nfi\nchmod 644 "@ + escaped(public) + "\n"@
}

/// The script that settles a copied private key on the source node.
pub fn settle_key_script(ssh_private_key: &str) -> (r: String)
    ensures
        r@ == settle_key_script_of(ssh_private_key@),
{
    let mut public = ssh_private_key.to_owned();
    public.append(".pub");
    let mut script = "set -eu\ninstall -d -m 700 \"$HOME/.ssh\"\nchmod 600 ".to_owned();
    push_escaped(&mut script, ssh_private_key);
    script.append("\nif [ ! -s ");
    push_escaped(&mut script, public.as_str());
    script.append(" ]; then\nssh-keygen -y -f ");
    push_escaped(&mut script, ssh_private_key);
    script.append(" > ");
    push_escaped(&mut script, public.as_str());
    script.append("\nfi\nchmod 644 ");
    push_escaped(&mut script, public.as_str());
    script.append("\n");
    script
}

/// The option that gives the port within a script.
pub open spec fn hop_port_option(port: Option<u16>) -> Seq<char> {
    match ssh_port(port) {
        Some(port) => "-p "@ + decimal(port as nat) + " "@,
        None => ""@,
    }
}

/// The script with which the source node tries to reach the target node.
pub open spec fn hop_script_of(key: Seq<char>, user: Seq<char>, host: Seq<char>, port: Option<u16>) -> Seq<
    char,
> {
    "ssh -o BatchMode=yes -o StrictHostKeyChecking=accept-new -i "@ + escaped(key) + " "@
        + hop_port_option(port) + escaped(user + "@"@ + connection_host(host)) + " -- true"@
}

/// The script with which the source node tries to reach the target node.
pub fn hop_script(ssh_private_key: &str, user: &str, host: &str, port: Option<u16>) -> (r: String)
    ensures
        r@ == hop_script_of(ssh_private_key@, user@, host@, port),
{
    let name = normalize_host_for_connection(host);
    let mut target = user.to_owned();
    target.append("@");
    target.append(name.as_str());
    let option = match normalize_ssh_port(port) {
        Some(port) => {
            let mut option = "-p ".to_owned();
            push_decimal(&mut option, port as u64);
            option.append(" ");
            option
        },
        None => "".to_owned(),
    };
    let mut script =
        "ssh -o BatchMode=yes -o StrictHostKeyChecking=accept-new -i ".to_owned();
    push_escaped(&mut script, ssh_private_key);
    script.append(" ");
    script.append(option.as_str());
    push_escaped(&mut script, target.as_str());
    script.append(" -- true");
    script
}

// ---------------------------------------------------------------------------------------------
// The preparation
// ---------------------------------------------------------------------------------------------

/// A piece of outside work in a preparation.
#[derive(Clone, Copy, Debug, PartialEq, Eq, Structural)]
pub enum PrepareStage {
    /// Reading the public key on the managing host.
    ReadKey,
    /// Connecting to the source node.
    SourceConnect,
    /// Connecting to the target node.
    TargetConnect,
    /// Installing the public key for the source user.
    SourceKeys,
    /// Installing the public key for the target user.
    TargetKeys,
    /// Copying the private key to the source node.
    CopyKey,
    /// Connecting from the source node to the target node.
    Hop,
}

/// What came of the outside work so far. A failure comes with its message.
#[derive(Debug)]
pub struct PrepareOutcomes {
    /// The public key.
    pub key: Option<Result<String, String>>,
    /// The connection to the source node.
    pub source_connect: Option<Result<(), String>>,
    /// The connection to the target node.
    pub target_connect: Option<Result<(), String>>,
    /// The key of the source user.
    pub source_keys: Option<Result<(), String>>,
    /// The key of the target user.
    pub target_keys: Option<Result<(), String>>,
    /// The copy of the private key.
    pub copy_key: Option<Result<(), String>>,
    /// The connection from the source node to the target node.
    pub hop: Option<Result<(), String>>,
}

pub open spec fn done_view(o: Option<Result<(), String>>) -> Option<Result<(), Seq<char>>> {
    match o {
        None => None,
        Some(Ok(_)) => Some(Ok(())),
        Some(Err(message)) => Some(Err(message@)),
    }
}

pub open spec fn key_view(o: Option<Result<String, String>>) -> Option<
    Result<Seq<char>, Seq<char>>,
> {
    match o {
        None => None,
        Some(Ok(key)) => Some(Ok(key@)),
        Some(Err(message)) => Some(Err(message@)),
    }
}

/// What came of the outside work so far.
pub struct OutcomesView {
    pub key: Option<Result<Seq<char>, Seq<char>>>,
    pub source_connect: Option<Result<(), Seq<char>>>,
    pub target_connect: Option<Result<(), Seq<char>>>,
    pub source_keys: Option<Result<(), Seq<char>>>,
    pub target_keys: Option<Result<(), Seq<char>>>,
    pub copy_key: Option<Result<(), Seq<char>>>,
    pub hop: Option<Result<(), Seq<char>>>,
}

impl View for PrepareOutcomes {
    type V = OutcomesView;

    open spec fn view(&self) -> OutcomesView {
        OutcomesView {
            key: key_view(self.key),
            source_connect: done_view(self.source_connect),
            target_connect: done_view(self.target_connect),
            source_keys: done_view(self.source_keys),
            target_keys: done_view(self.target_keys),
            copy_key: done_view(self.copy_key),
            hop: done_view(self.hop),
        }
    }
}

impl PrepareOutcomes {
    /// Nothing has been done yet.
    pub fn new() -> (r: PrepareOutcomes)
        ensures
            r@ == nothing_done(),
    {
        PrepareOutcomes {
            key: None,
            source_connect: None,
            target_connect: None,
            source_keys: None,
            target_keys: None,
            copy_key: None,
            hop: None,
        }
    }

    /// Notes what came of a piece of outside work other than reading the key.
    pub fn record(&mut self, stage: PrepareStage, done: Result<(), String>)
        ensures
            final(self)@ == recorded(old(self)@, stage, done_view(Some(done))),
    {
        match stage {
            PrepareStage::ReadKey => {},
            PrepareStage::SourceConnect => {
                self.source_connect = Some(done);
            },
            PrepareStage::TargetConnect => {
                self.target_connect = Some(done);
            },
            PrepareStage::SourceKeys => {
                self.source_keys = Some(done);
            },
            PrepareStage::TargetKeys => {
                self.target_keys = Some(done);
            },
            PrepareStage::CopyKey => {
                self.copy_key = Some(done);
            },
            PrepareStage::Hop => {
                self.hop = Some(done);
            },
        }
    }
}

/// Nothing has been done yet.
pub open spec fn nothing_done() -> OutcomesView {
    OutcomesView {
        key: None,
        source_connect: None,
        target_connect: None,
        source_keys: None,
        target_keys: None,
        copy_key: None,
        hop: None,
    }
}

/// The outcomes with one more. The key is not recorded this way.
pub open spec fn recorded(
    outcomes: OutcomesView,
    stage: PrepareStage,
    done: Option<Result<(), Seq<char>>>,
) -> OutcomesView {
    match stage {
        PrepareStage::ReadKey => outcomes,
        PrepareStage::SourceConnect => OutcomesView { source_connect: done, ..outcomes },
        PrepareStage::TargetConnect => OutcomesView { target_connect: done, ..outcomes },
        PrepareStage::SourceKeys => OutcomesView { source_keys: done, ..outcomes },
        PrepareStage::TargetKeys => OutcomesView { target_keys: done, ..outcomes },
        PrepareStage::CopyKey => OutcomesView { copy_key: done, ..outcomes },
        PrepareStage::Hop => OutcomesView { hop: done, ..outcomes },
    }
}

pub open spec fn succeeded(done: Option<Result<(), Seq<char>>>) -> bool {
    done matches Some(Ok(_))
}

/// The outside work that is to be done next, if any is left.
pub open spec fn next_stage(request: OffsiteSshPrepareRequest, o: OutcomesView) -> Option<
    PrepareStage,
> {
    let source = succeeded(o.source_connect);
    let target = succeeded(o.target_connect);
    if o.key is None {
        Some(PrepareStage::ReadKey)
    } else if o.key->0 is Err {
        None
    } else if o.source_connect is None {
        Some(PrepareStage::SourceConnect)
    } else if o.target_connect is None {
        Some(PrepareStage::TargetConnect)
    } else if request.install_authorized_keys && source && o.source_keys is None {
        Some(PrepareStage::SourceKeys)
    } else if request.install_authorized_keys && target && o.target_keys is None {
        Some(PrepareStage::TargetKeys)
    } else if request.copy_key_to_source && source && o.copy_key is None {
        Some(PrepareStage::CopyKey)
    } else if source && target && o.hop is None {
        Some(PrepareStage::Hop)
    } else {
        None
    }
}

/// How to let the source user in.
pub open spec fn source_remediation(request: OffsiteSshPrepareRequest) -> Option<Seq<char>> {
    Some(user_remediation(request.source_remote@, request.source_node@, request.source_user@))
}

/// How to let the target user in.
pub open spec fn target_remediation(request: OffsiteSshPrepareRequest) -> Option<Seq<char>> {
    Some(user_remediation(request.target_remote@, request.target_node@, request.target_user@))
}

pub open spec fn key_step(request: OffsiteSshPrepareRequest, key: Result<Seq<char>, Seq<char>>) -> StepView {
    match key {
        Ok(_) => plain_step("key-check"@, true, "SSH private/public key on PDM host is usable."@),
        Err(message) => coded_step(
            "key-check"@,
            key_check_code(message),
            Some("ssh-private-key"@),
            message,
            Some(
                "Ensure '"@ + request.ssh_private_key@
                    + "' exists and is readable by the PDM service user."@,
            ),
        ),
    }
}

pub open spec fn source_connect_step(
    request: OffsiteSshPrepareRequest,
    done: Option<Result<(), Seq<char>>>,
) -> StepView {
    match done {
        Some(Err(message)) => coded_step(
            "source-connect"@,
            connect_code(message),
            Some("source-user"@),
            message,
            source_remediation(request),
        ),
        _ => plain_step("source-connect"@, true, "Connected to source node over SSH."@),
    }
}

pub open spec fn target_connect_step(
    request: OffsiteSshPrepareRequest,
    done: Option<Result<(), Seq<char>>>,
) -> StepView {
    match done {
        Some(Err(message)) => coded_step(
            "target-connect"@,
            connect_code(message),
            Some("target-user"@),
            message,
            target_remediation(request),
        ),
        _ => plain_step("target-connect"@, true, "Connected to target node over SSH."@),
    }
}

pub open spec fn source_keys_step(request: OffsiteSshPrepareRequest, o: OutcomesView) -> StepView {
    if !succeeded(o.source_connect) {
        skipped_step(
            "source-authorized-keys"@,
            "Skipped because source-connect failed."@,
            source_remediation(request),
        )
    } else {
        match o.source_keys {
            Some(Err(message)) => failed_step(
                "source-authorized-keys"@,
                message,
                source_remediation(request),
            ),
            _ => plain_step(
                "source-authorized-keys"@,
                true,
                "Installed/verified public key on source user authorized_keys."@,
            ),
        }
    }
}

pub open spec fn target_keys_step(request: OffsiteSshPrepareRequest, o: OutcomesView) -> StepView {
    if !succeeded(o.target_connect) {
        skipped_step(
            "target-authorized-keys"@,
            "Skipped because target-connect failed."@,
            target_remediation(request),
        )
    } else {
        match o.target_keys {
            Some(Err(message)) => failed_step(
                "target-authorized-keys"@,
                message,
                target_remediation(request),
            ),
            _ => plain_step(
                "target-authorized-keys"@,
                true,
                "Installed/verified public key on target user authorized_keys."@,
            ),
        }
    }
}

pub open spec fn keys_steps(request: OffsiteSshPrepareRequest, o: OutcomesView) -> Seq<StepView> {
    if request.install_authorized_keys {
        seq![source_keys_step(request, o), target_keys_step(request, o)]
    } else {
        seq![
            plain_step(
                "authorized-keys"@,
                true,
                "authorized_keys installation skipped by option."@,
            ),
        ]
    }
}

pub open spec fn copy_step(request: OffsiteSshPrepareRequest, o: OutcomesView) -> StepView {
    if !request.copy_key_to_source {
        plain_step("copy-key-to-source"@, true, "Source key copy skipped by option."@)
    } else if !succeeded(o.source_connect) {
        skipped_step(
            "copy-key-to-source"@,
            "Skipped because source-connect failed."@,
            source_remediation(request),
        )
    } else {
        match o.copy_key {
            Some(Err(message)) => failed_step(
                "copy-key-to-source"@,
                message,
                Some(
                    "Ensure source user '"@ + request.source_user@ + "' can write '"@
                        + request.ssh_private_key@ + "' and retry with copy enabled."@,
                ),
            ),
            _ => plain_step(
                "copy-key-to-source"@,
                true,
                "Copied key material to source host for source->target hop."@,
            ),
        }
    }
}

pub open spec fn hop_step(o: OutcomesView) -> StepView {
    if !(succeeded(o.source_connect) && succeeded(o.target_connect)) {
        skipped_step(
            "source-to-target-hop"@,
            "Skipped because source or target connectivity failed."@,
            Some("Fix source-connect and target-connect failures, then rerun Prepare SSH."@),
        )
    } else {
        match o.hop {
            Some(Err(message)) => failed_step(
                "source-to-target-hop"@,
                message,
                Some(
                    "Verify source user key access to target, or rerun with 'Copy key to source' enabled."@,
                ),
            ),
            _ => plain_step(
                "source-to-target-hop"@,
                true,
                "Source host can open SSH hop to target host."@,
            ),
        }
    }
}

/// The steps of a preparation that has come to its end. Without a usable key it ends at once.
pub open spec fn result_steps(request: OffsiteSshPrepareRequest, o: OutcomesView) -> Seq<StepView> {
    match o.key {
        Some(Ok(key)) => seq![
            key_step(request, Ok(key)),
            source_connect_step(request, o.source_connect),
            target_connect_step(request, o.target_connect),
        ] + keys_steps(request, o) + seq![copy_step(request, o), hop_step(o)],
        Some(Err(message)) => seq![key_step(request, Err(message))],
        None => seq![],
    }
}

pub open spec fn all_ok(steps: Seq<StepView>) -> bool {
    forall|i: int| 0 <= i < steps.len() ==> (#[trigger] steps[i]).ok
}

/// The outside work of a stage.
pub enum WorkView {
    /// Read the public key of the given private key.
    ReadKey(Seq<char>),
    /// Run a script on a node: remote, node, user, script.
    Script(Seq<char>, Seq<char>, Seq<char>, Seq<char>),
    /// Call `scp`, then run a script on a node: arguments, remote, node, user, script.
    Copy(Seq<Seq<char>>, Seq<char>, Seq<char>, Seq<char>, Seq<char>),
}

/// The outside work of a stage.
#[derive(Debug)]
pub enum PrepareWork {
    /// Read the public key of the given private key.
    ReadKey(String),
    /// Run a script on a node: remote, node, user, script.
    Script(String, String, String, String),
    /// Call `scp`, then run a script on a node: arguments, remote, node, user, script.
    Copy(Vec<String>, String, String, String, String),
}

impl View for PrepareWork {
    type V = WorkView;

    open spec fn view(&self) -> WorkView {
        match self {
            PrepareWork::ReadKey(path) => WorkView::ReadKey(path@),
            PrepareWork::Script(remote, node, user, script) => WorkView::Script(
                remote@,
                node@,
                user@,
                script@,
            ),
            PrepareWork::Copy(args, remote, node, user, script) => WorkView::Copy(
                texts(args@),
                remote@,
                node@,
                user@,
                script@,
            ),
        }
    }
}

/// The script that tries a connection.
pub const CONNECT_SCRIPT: &'static str = "id -un >/dev/null";

/// The outside work of a stage, where the public key is `public_key` and the nodes have the given
/// hosts and ports.
pub open spec fn stage_work(
    request: OffsiteSshPrepareRequest,
    source: (Seq<char>, Option<u16>),
    target: (Seq<char>, Option<u16>),
    public_key: Seq<char>,
    stage: PrepareStage,
) -> WorkView {
    let key = request.ssh_private_key@;
    let on_source = |script: Seq<char>|
        WorkView::Script(
            request.source_remote@,
            request.source_node@,
            request.source_user@,
            script,
        );
    let on_target = |script: Seq<char>|
        WorkView::Script(
            request.target_remote@,
            request.target_node@,
            request.target_user@,
            script,
        );
    match stage {
        PrepareStage::ReadKey => WorkView::ReadKey(key),
        PrepareStage::SourceConnect => on_source(CONNECT_SCRIPT@),
        PrepareStage::TargetConnect => on_target(CONNECT_SCRIPT@),
        PrepareStage::SourceKeys => on_source(install_key_script_of(public_key)),
        PrepareStage::TargetKeys => on_target(install_key_script_of(public_key)),
        PrepareStage::CopyKey => WorkView::Copy(
            scp_arguments_of(source.0, source.1, request.source_user@, key),
            request.source_remote@,
            request.source_node@,
            request.source_user@,
            settle_key_script_of(key),
        ),
        PrepareStage::Hop => on_source(
            hop_script_of(key, request.target_user@, target.0, target.1),
        ),
    }
}

/// How a preparation stands.
pub enum ProgressView {
    /// Outside work is to be done.
    Work(PrepareStage, WorkView),
    /// The preparation has come to its end: whether all steps passed, the hosts and the steps.
    Done(bool, Seq<char>, Seq<char>, Seq<StepView>),
}

/// How a preparation stands.
#[derive(Debug)]
pub enum PrepareProgress {
    /// Outside work is to be done.
    Work(PrepareStage, PrepareWork),
    /// The preparation has come to its end.
    Done(OffsiteSshPrepareResult),
}

impl View for PrepareProgress {
    type V = ProgressView;

    open spec fn view(&self) -> ProgressView {
        match self {
            PrepareProgress::Work(stage, work) => ProgressView::Work(*stage, work@),
            PrepareProgress::Done(result) => ProgressView::Done(
                result.ok,
                result.source_host@,
                result.target_host@,
                steps_view(result.steps@),
            ),
        }
    }
}

pub open spec fn found_key(o: OutcomesView) -> Seq<char> {
    match o.key {
        Some(Ok(key)) => key,
        _ => ""@,
    }
}

/// The host of an address.
pub open spec fn host_of(address: Option<(Seq<char>, Option<u16>)>) -> Seq<char> {
    match address {
        Some((host, _)) => host,
        None => ""@,
    }
}

/// How a preparation stands, given what has been done.
pub open spec fn progress_of(
    request: OffsiteSshPrepareRequest,
    source: Option<(Seq<char>, Option<u16>)>,
    target: Option<(Seq<char>, Option<u16>)>,
    o: OutcomesView,
) -> Result<ProgressView, Seq<char>> {
    if ssh_user_verdict(request.source_user@) is Err {
        Err(ssh_user_verdict(request.source_user@)->Err_0)
    } else if ssh_user_verdict(request.target_user@) is Err {
        Err(ssh_user_verdict(request.target_user@)->Err_0)
    } else if key_path_verdict(request.ssh_private_key@) is Err {
        Err(key_path_verdict(request.ssh_private_key@)->Err_0)
    } else if source is None {
        Err("failed to resolve source node host"@)
    } else if target is None {
        Err("failed to resolve target node host"@)
    } else {
        Ok(
            match next_stage(request, o) {
                Some(stage) => ProgressView::Work(
                    stage,
                    stage_work(request, source->0, target->0, found_key(o), stage),
                ),
                None => {
                    let steps = result_steps(request, o);
                    ProgressView::Done(all_ok(steps), host_of(source), host_of(target), steps)
                },
            },
        )
    }
}

pub open spec fn progress_outcome(r: Result<PrepareProgress, Error>) -> Result<
    ProgressView,
    Seq<char>,
> {
    match r {
        Ok(progress) => Ok(progress@),
        Err(e) => Err(e@),
    }
}

fn is_done(done: &Option<Result<(), String>>) -> (r: bool)
    ensures
        r == succeeded(done_view(*done)),
{
    match done {
        Some(Ok(_)) => true,
        _ => false,
    }
}

fn choose_stage(request: &OffsiteSshPrepareRequest, o: &PrepareOutcomes) -> (r: Option<PrepareStage>)
    ensures
        r == next_stage(*request, o@),
{
    let source = is_done(&o.source_connect);
    let target = is_done(&o.target_connect);
    match &o.key {
        None => {
            return Some(PrepareStage::ReadKey);
        },
        Some(Err(_)) => {
            return None;
        },
        Some(Ok(_)) => {},
    }
    if o.source_connect.is_none() {
        Some(PrepareStage::SourceConnect)
    } else if o.target_connect.is_none() {
        Some(PrepareStage::TargetConnect)
    } else if request.install_authorized_keys && source && o.source_keys.is_none() {
        Some(PrepareStage::SourceKeys)
    } else if request.install_authorized_keys && target && o.target_keys.is_none() {
        Some(PrepareStage::TargetKeys)
    } else if request.copy_key_to_source && source && o.copy_key.is_none() {
        Some(PrepareStage::CopyKey)
    } else if source && target && o.hop.is_none() {
        Some(PrepareStage::Hop)
    } else {
        None
    }
}

fn on_source(request: &OffsiteSshPrepareRequest, script: String) -> (r: PrepareWork)
    ensures
        r@ == WorkView::Script(
            request.source_remote@,
            request.source_node@,
            request.source_user@,
            script@,
        ),
{
    PrepareWork::Script(
        request.source_remote.clone(),
        request.source_node.clone(),
        request.source_user.clone(),
        script,
    )
}

fn on_target(request: &OffsiteSshPrepareRequest, script: String) -> (r: PrepareWork)
    ensures
        r@ == WorkView::Script(
            request.target_remote@,
            request.target_node@,
            request.target_user@,
            script@,
        ),
{
    PrepareWork::Script(
        request.target_remote.clone(),
        request.target_node.clone(),
        request.target_user.clone(),
        script,
    )
}

fn work_of(
    request: &OffsiteSshPrepareRequest,
    source: &(String, Option<u16>),
    target: &(String, Option<u16>),
    public_key: &str,
    stage: PrepareStage,
) -> (r: PrepareWork)
    ensures
        r@ == stage_work(
            *request,
            (source.0@, source.1),
            (target.0@, target.1),
            public_key@,
            stage,
        ),
{
    let key = request.ssh_private_key.as_str();
    match stage {
        PrepareStage::ReadKey => PrepareWork::ReadKey(request.ssh_private_key.clone()),
        PrepareStage::SourceConnect => on_source(request, CONNECT_SCRIPT.to_owned()),
        PrepareStage::TargetConnect => on_target(request, CONNECT_SCRIPT.to_owned()),
        PrepareStage::SourceKeys => on_source(request, install_key_script(public_key)),
        PrepareStage::TargetKeys => on_target(request, install_key_script(public_key)),
        PrepareStage::CopyKey => PrepareWork::Copy(
            scp_arguments(source.0.as_str(), source.1, request.source_user.as_str(), key),
            request.source_remote.clone(),
            request.source_node.clone(),
            request.source_user.clone(),
            settle_key_script(key),
        ),
        PrepareStage::Hop => on_source(
            request,
            hop_script(key, request.target_user.as_str(), target.0.as_str(), target.1),
        ),
    }
}

fn source_help(request: &OffsiteSshPrepareRequest) -> (r: Option<String>)
    ensures
        opt_text(r) == source_remediation(*request),
{
    Some(
        ssh_prepare_user_remediation(
            request.source_remote.as_str(),
            request.source_node.as_str(),
            request.source_user.as_str(),
        ),
    )
}

fn target_help(request: &OffsiteSshPrepareRequest) -> (r: Option<String>)
    ensures
        opt_text(r) == target_remediation(*request),
{
    Some(
        ssh_prepare_user_remediation(
            request.target_remote.as_str(),
            request.target_node.as_str(),
            request.target_user.as_str(),
        ),
    )
}

fn failed_key_step(request: &OffsiteSshPrepareRequest, message: &String) -> (r:
    OffsiteSshPrepareStep)
    ensures
        r@ == key_step(*request, Err(message@)),
{
    let mut help = "Ensure '".to_owned();
    help.append(request.ssh_private_key.as_str());
    help.append("' exists and is readable by the PDM service user.");
    ssh_prepare_step_err_with_code(
        "key-check",
        key_check_error_code(message.as_str()),
        Some("ssh-private-key"),
        message.clone(),
        Some(help),
    )
}

fn make_source_connect_step(request: &OffsiteSshPrepareRequest, o: &PrepareOutcomes) -> (r:
    OffsiteSshPrepareStep)
    ensures
        r@ == source_connect_step(*request, o@.source_connect),
{
    match &o.source_connect {
        Some(Err(message)) => ssh_prepare_step_err_with_code(
            "source-connect",
            connect_error_code(message.as_str()),
            Some("source-user"),
            message.clone(),
            source_help(request),
        ),
        _ => ssh_prepare_step(
            "source-connect",
            true,
            "Connected to source node over SSH.".to_owned(),
        ),
    }
}

fn make_target_connect_step(request: &OffsiteSshPrepareRequest, o: &PrepareOutcomes) -> (r:
    OffsiteSshPrepareStep)
    ensures
        r@ == target_connect_step(*request, o@.target_connect),
{
    match &o.target_connect {
        Some(Err(message)) => ssh_prepare_step_err_with_code(
            "target-connect",
            connect_error_code(message.as_str()),
            Some("target-user"),
            message.clone(),
            target_help(request),
        ),
        _ => ssh_prepare_step(
            "target-connect",
            true,
            "Connected to target node over SSH.".to_owned(),
        ),
    }
}

fn make_source_keys_step(request: &OffsiteSshPrepareRequest, o: &PrepareOutcomes) -> (r:
    OffsiteSshPrepareStep)
    ensures
        r@ == source_keys_step(*request, o@),
{
    if !is_done(&o.source_connect) {
        return ssh_prepare_step_skipped(
            "source-authorized-keys",
            "Skipped because source-connect failed.".to_owned(),
            source_help(request),
        );
    }
    match &o.source_keys {
        Some(Err(message)) => ssh_prepare_step_err(
            "source-authorized-keys",
            message.clone(),
            source_help(request),
        ),
        _ => ssh_prepare_step(
            "source-authorized-keys",
            true,
            "Installed/verified public key on source user authorized_keys.".to_owned(),
        ),
    }
}

fn make_target_keys_step(request: &OffsiteSshPrepareRequest, o: &PrepareOutcomes) -> (r:
    OffsiteSshPrepareStep)
    ensures
        r@ == target_keys_step(*request, o@),
{
    if !is_done(&o.target_connect) {
        return ssh_prepare_step_skipped(
            "target-authorized-keys",
            "Skipped because target-connect failed.".to_owned(),
            target_help(request),
        );
    }
    match &o.target_keys {
        Some(Err(message)) => ssh_prepare_step_err(
            "target-authorized-keys",
            message.clone(),
            target_help(request),
        ),
        _ => ssh_prepare_step(
            "target-authorized-keys",
            true,
            "Installed/verified public key on target user authorized_keys.".to_owned(),
        ),
    }
}

fn make_copy_step(request: &OffsiteSshPrepareRequest, o: &PrepareOutcomes) -> (r:
    OffsiteSshPrepareStep)
    ensures
        r@ == copy_step(*request, o@),
{
    if !request.copy_key_to_source {
        return ssh_prepare_step(
            "copy-key-to-source",
            true,
            "Source key copy skipped by option.".to_owned(),
        );
    }
    if !is_done(&o.source_connect) {
        return ssh_prepare_step_skipped(
            "copy-key-to-source",
            "Skipped because source-connect failed.".to_owned(),
            source_help(request),
        );
    }
    match &o.copy_key {
        Some(Err(message)) => {
            let mut help = "Ensure source user '".to_owned();
            help.append(request.source_user.as_str());
            help.append("' can write '");
            help.append(request.ssh_private_key.as_str());
            help.append("' and retry with copy enabled.");
            ssh_prepare_step_err("copy-key-to-source", message.clone(), Some(help))
        },
        _ => ssh_prepare_step(
            "copy-key-to-source",
            true,
            "Copied key material to source host for source->target hop.".to_owned(),
        ),
    }
}

fn make_hop_step(o: &PrepareOutcomes) -> (r: OffsiteSshPrepareStep)
    ensures
        r@ == hop_step(o@),
{
    if !(is_done(&o.source_connect) && is_done(&o.target_connect)) {
        return ssh_prepare_step_skipped(
            "source-to-target-hop",
            "Skipped because source or target connectivity failed.".to_owned(),
            Some(
                "Fix source-connect and target-connect failures, then rerun Prepare SSH.".to_owned(),
            ),
        );
    }
    match &o.hop {
        Some(Err(message)) => ssh_prepare_step_err(
            "source-to-target-hop",
            message.clone(),
            Some(
                "Verify source user key access to target, or rerun with 'Copy key to source' enabled.".to_owned(),
            ),
        ),
        _ => ssh_prepare_step(
            "source-to-target-hop",
            true,
            "Source host can open SSH hop to target host.".to_owned(),
        ),
    }
}

fn make_steps(request: &OffsiteSshPrepareRequest, o: &PrepareOutcomes) -> (r: Vec<
    OffsiteSshPrepareStep,
>)
    ensures
        steps_view(r@) == result_steps(*request, o@),
{
    let mut steps: Vec<OffsiteSshPrepareStep> = Vec::new();
    match &o.key {
        None => {
            assert(steps_view(steps@) =~= result_steps(*request, o@));
        },
        Some(Err(message)) => {
            steps.push(failed_key_step(request, message));
            assert(steps_view(steps@) =~= result_steps(*request, o@));
        },
        Some(Ok(_)) => {
            steps.push(
                ssh_prepare_step(
                    "key-check",
                    true,
                    "SSH private/public key on PDM host is usable.".to_owned(),
                ),
            );
            steps.push(make_source_connect_step(request, o));
            steps.push(make_target_connect_step(request, o));
            if request.install_authorized_keys {
                steps.push(make_source_keys_step(request, o));
                steps.push(make_target_keys_step(request, o));
            } else {
                steps.push(
                    ssh_prepare_step(
                        "authorized-keys",
                        true,
                        "authorized_keys installation skipped by option.".to_owned(),
                    ),
                );
            }
            steps.push(make_copy_step(request, o));
            steps.push(make_hop_step(o));
            assert(steps_view(steps@) =~= result_steps(*request, o@));
        },
    }
    steps
}

fn every_ok(steps: &Vec<OffsiteSshPrepareStep>) -> (r: bool)
    ensures
        r == all_ok(steps_view(steps@)),
{
    let ghost all = steps_view(steps@);
    let mut i: usize = 0;
    while i < steps.len()
        invariant
            i <= steps.len(),
            all == steps_view(steps@),
            forall|k: int| 0 <= k < i ==> (#[trigger] all[k]).ok,
        decreases steps.len() - i,
    {
        assert(all[i as int] == steps@[i as int]@);
        if !steps[i].ok {
            return false;
        }
        i += 1;
    }
    true
}

pub open spec fn address_view(o: Option<(String, Option<u16>)>) -> Option<
    (Seq<char>, Option<u16>),
> {
    match o {
        Some((host, port)) => Some((host@, port)),
        None => None,
    }
}

/// Decides how a preparation goes on: what outside work is to be done next, given what came of the
/// work so far, or what the result is. The nodes' hosts are given where they could be resolved.
pub fn prepare_ssh(
    request: &OffsiteSshPrepareRequest,
    source: &Option<(String, Option<u16>)>,
    target: &Option<(String, Option<u16>)>,
    outcomes: &PrepareOutcomes,
) -> (r: Result<PrepareProgress, Error>)
    ensures
        progress_outcome(r) == progress_of(
            *request,
            address_view(*source),
            address_view(*target),
            outcomes@,
        ),
{
    if let Err(e) = verify_offsite_ssh_user(request.source_user.as_str()) {
        return Err(e);
    }
    if let Err(e) = verify_offsite_ssh_user(request.target_user.as_str()) {
        return Err(e);
    }
    if let Err(e) = verify_offsite_ssh_key_path(request.ssh_private_key.as_str()) {
        return Err(e);
    }
    let source_address = match source {
        Some(address) => address,
        None => {
            return Err(Error::new("failed to resolve source node host"));
        },
    };
    let target_address = match target {
        Some(address) => address,
        None => {
            return Err(Error::new("failed to resolve target node host"));
        },
    };
    match choose_stage(request, outcomes) {
        Some(stage) => {
            let work = match &outcomes.key {
                Some(Ok(key)) => work_of(
                    request,
                    source_address,
                    target_address,
                    key.as_str(),
                    stage,
                ),
                _ => work_of(request, source_address, target_address, "", stage),
            };
            Ok(PrepareProgress::Work(stage, work))
        },
        None => {
            let steps = make_steps(request, outcomes);
            let ok = every_ok(&steps);
            Ok(
                PrepareProgress::Done(
                    OffsiteSshPrepareResult {
                        ok,
                        source_host: source_address.0.clone(),
                        target_host: target_address.0.clone(),
                        steps,
                    },
                ),
            )
        },
    }
}

/// What `copy_key_to_source_host` answers before the script on the source node runs.
pub open spec fn copied(key: Seq<char>, key_exists: bool, scp: Option<(bool, Seq<char>)>) -> Result<
    (),
    Seq<char>,
> {
    if !key_exists {
        Err("private key '"@ + key + "' does not exist"@)
    } else {
        match scp {
            None => Err("failed to copy SSH key to source host"@),
            Some((true, _)) => Ok(()),
            Some((false, text)) => Err("failed to copy SSH key to source host: "@ + text),
        }
    }
}

pub open spec fn scp_view(o: Option<CommandOutput>) -> Option<(bool, Seq<char>)> {
    match o {
        Some(output) => Some((output.success, output_text(output))),
        None => None,
    }
}

/// Whether the private key was copied to the source node. No output is there where `scp` could not
/// be executed.
pub fn copy_key_to_source_host(
    ssh_private_key: &str,
    key_exists: bool,
    scp: &Option<CommandOutput>,
) -> (r: Result<(), Error>)
    ensures
        outcome(r) == copied(ssh_private_key@, key_exists, scp_view(*scp)),
{
    if !key_exists {
        return Err(Error::of3("private key '", ssh_private_key, "' does not exist"));
    }
    match scp {
        None => Err(Error::new("failed to copy SSH key to source host")),
        Some(output) => {
            if output.success {
                return Ok(());
            }
            let text = merge_command_output(output);
            let mut message = "failed to copy SSH key to source host: ".to_owned();
            message.append(text.as_str());
            Err(Error { message })
        },
    }
}

// ---------------------------------------------------------------------------------------------
// Key generation
// ---------------------------------------------------------------------------------------------

/// What a result of a key generation says.
pub struct KeygenView {
    pub ok: bool,
    pub status: Seq<char>,
    pub ssh_private_key: Seq<char>,
    pub fingerprint: Option<Seq<char>>,
    pub message: Seq<char>,
}

impl View for OffsiteSshKeygenResult {
    type V = KeygenView;

    open spec fn view(&self) -> KeygenView {
        KeygenView {
            ok: self.ok,
            status: self.status@,
            ssh_private_key: self.ssh_private_key@,
            fingerprint: opt_text(self.fingerprint),
            message: self.message@,
        }
    }
}

/// What is to be done to generate a key pair.
pub enum KeygenPlanView {
    /// Nothing: the result is known.
    Refused(KeygenView),
    /// Remove the private and the public key, where each is there, and call `ssh-keygen`.
    Generate(bool, bool, Seq<Seq<char>>),
}

/// What is to be done to generate a key pair.
#[derive(Debug)]
pub enum KeygenPlan {
    /// Nothing: the result is known.
    Refused(OffsiteSshKeygenResult),
    /// Remove the private and the public key, where each is there, and call `ssh-keygen`.
    Generate(bool, bool, Vec<String>),
}

impl View for KeygenPlan {
    type V = KeygenPlanView;

    open spec fn view(&self) -> KeygenPlanView {
        match self {
            KeygenPlan::Refused(result) => KeygenPlanView::Refused(result@),
            KeygenPlan::Generate(private, public, args) => KeygenPlanView::Generate(
                *private,
                *public,
                texts(args@),
            ),
        }
    }
}

/// What `ssh-keygen` is called with.
pub open spec fn keygen_arguments_of(path: Seq<char>) -> Seq<Seq<char>> {
    seq!["-q"@, "-t"@, "ed25519"@, "-N"@, ""@, "-f"@, path]
}

/// What `plan_keygen` answers.
pub open spec fn keygen_plan(
    request: OffsiteSshKeygenRequest,
    private_exists: bool,
    public_exists: bool,
) -> Result<KeygenPlanView, Seq<char>> {
    let path = request.ssh_private_key@;
    match key_path_verdict(path) {
        Err(e) => Err(e),
        Ok(_) => if (private_exists || public_exists) && !request.overwrite {
            Ok(
                KeygenPlanView::Refused(
                    KeygenView {
                        ok: false,
                        status: "exists"@,
                        ssh_private_key: path,
                        fingerprint: None,
                        message: "SSH key path '"@ + path
                            + "' already exists. Confirm overwrite to replace it."@,
                    },
                ),
            )
        } else {
            Ok(
                KeygenPlanView::Generate(private_exists, public_exists, keygen_arguments_of(path)),
            )
        },
    }
}

/// Decides what is to be done to generate a key pair. An existing one is replaced only where the
/// request says so.
pub fn plan_keygen(
    request: &OffsiteSshKeygenRequest,
    private_exists: bool,
    public_exists: bool,
) -> (r: Result<KeygenPlan, Error>)
    ensures
        (match r {
            Ok(plan) => Ok(plan@),
            Err(e) => Err(e@),
        }) == keygen_plan(*request, private_exists, public_exists),
{
    if let Err(e) = verify_offsite_ssh_key_path(request.ssh_private_key.as_str()) {
        return Err(e);
    }
    if (private_exists || public_exists) && !request.overwrite {
        let mut message = "SSH key path '".to_owned();
        message.append(request.ssh_private_key.as_str());
        message.append("' already exists. Confirm overwrite to replace it.");
        return Ok(
            KeygenPlan::Refused(
                OffsiteSshKeygenResult {
                    ok: false,
                    status: "exists".to_owned(),
                    ssh_private_key: request.ssh_private_key.clone(),
                    fingerprint: None,
                    message,
                },
            ),
        );
    }
    let mut args: Vec<String> = Vec::new();
    args.push("-q".to_owned());
    args.push("-t".to_owned());
    args.push("ed25519".to_owned());
    args.push("-N".to_owned());
    args.push("".to_owned());
    args.push("-f".to_owned());
    args.push(request.ssh_private_key.clone());
    assert(texts(args@) =~= keygen_arguments_of(request.ssh_private_key@));
    Ok(KeygenPlan::Generate(private_exists, public_exists, args))
}

/// What `fingerprint_of_text` answers.
pub open spec fn fingerprint_in(success: bool, all: Seq<char>, stdout: Seq<char>) -> Result<
    Seq<char>,
    Seq<char>,
> {
    if !success {
        Err("failed to read fingerprint: "@ + all)
    } else if words_of(stdout).len() < 2 {
        Err("unable to parse key fingerprint"@)
    } else {
        Ok(words_of(stdout)[1])
    }
}

/// The fingerprint in the texts that `ssh-keygen -lf` put out: the second word.
pub fn fingerprint_of_text(success: bool, all: &str, stdout: &str) -> (r: Result<String, Error>)
    ensures
        text_outcome(r) == fingerprint_in(success, all@, stdout@),
{
    if !success {
        let mut message = "failed to read fingerprint: ".to_owned();
        message.append(all);
        return Err(Error { message });
    }
    let words = split_whitespace(stdout);
    assert(words_of(stdout@).len() == words.len());
    if words.len() < 2 {
        return Err(Error::new("unable to parse key fingerprint"));
    }
    assert(words_of(stdout@)[1] == words@[1]@);
    Ok(words[1].clone())
}

/// The fingerprint that `ssh-keygen -lf` printed.
pub fn ssh_keygen_fingerprint(output: &CommandOutput) -> (r: Result<String, Error>)
    ensures
        text_outcome(r) == fingerprint_in(
            output.success,
            output_text(*output),
            lossy_text(output.stdout@),
        ),
{
    let all = merge_command_output(output);
    let stdout = stdout_text(output);
    fingerprint_of_text(output.success, all.as_str(), stdout.as_str())
}

/// What `generate_ssh_keypair` answers, given the text that `ssh-keygen` put out.
pub open spec fn keygen_result(
    request: OffsiteSshKeygenRequest,
    private_exists: bool,
    public_exists: bool,
    success: bool,
    text: Seq<char>,
    fingerprint: Option<Seq<char>>,
) -> Result<KeygenView, Seq<char>> {
    let path = request.ssh_private_key@;
    match keygen_plan(request, private_exists, public_exists) {
        Err(e) => Err(e),
        Ok(KeygenPlanView::Refused(result)) => Ok(result),
        Ok(KeygenPlanView::Generate(_, _, _)) => if !success {
            Err("ssh-keygen failed: "@ + text)
        } else if private_exists || public_exists {
            Ok(
                KeygenView {
                    ok: true,
                    status: "overwritten"@,
                    ssh_private_key: path,
                    fingerprint,
                    message: "Replaced SSH keypair at '"@ + path + "'."@,
                },
            )
        } else {
            Ok(
                KeygenView {
                    ok: true,
                    status: "created"@,
                    ssh_private_key: path,
                    fingerprint,
                    message: "Created SSH keypair at '"@ + path + "'."@,
                },
            )
        },
    }
}

/// The result of a key generation, where `ssh-keygen` was called as planned and left `output`. The
/// fingerprint is given where it could be read.
pub fn generate_ssh_keypair(
    request: &OffsiteSshKeygenRequest,
    private_exists: bool,
    public_exists: bool,
    output: &CommandOutput,
    fingerprint: Option<String>,
) -> (r: Result<OffsiteSshKeygenResult, Error>)
    ensures
        (match r {
            Ok(result) => Ok(result@),
            Err(e) => Err(e@),
        }) == keygen_result(
            *request,
            private_exists,
            public_exists,
            output.success,
            output_text(*output),
            opt_text(fingerprint),
        ),
{
    match plan_keygen(request, private_exists, public_exists) {
        Err(e) => Err(e),
        Ok(KeygenPlan::Refused(result)) => Ok(result),
        Ok(KeygenPlan::Generate(_, _, _)) => {
            if !output.success {
                let text = merge_command_output(output);
                let mut message = "ssh-keygen failed: ".to_owned();
                message.append(text.as_str());
                return Err(Error { message });
            }
            let overwritten = private_exists || public_exists;
            let mut message = if overwritten {
                "Replaced SSH keypair at '".to_owned()
            } else {
                "Created SSH keypair at '".to_owned()
            };
            message.append(request.ssh_private_key.as_str());
            message.append("'.");
            Ok(
                OffsiteSshKeygenResult {
                    ok: true,
                    status: if overwritten {
                        "overwritten".to_owned()
                    } else {
                        "created".to_owned()
                    },
                    ssh_private_key: request.ssh_private_key.clone(),
                    fingerprint,
                    message,
                },
            )
        },
    }
}

// ---------------------------------------------------------------------------------------------
// Laws
// ---------------------------------------------------------------------------------------------

/// Everything that a request asks for was done and succeeded.
pub open spec fn all_succeeded(request: OffsiteSshPrepareRequest, o: OutcomesView) -> bool {
    &&& o.key matches Some(Ok(_))
    &&& succeeded(o.source_connect)
    &&& succeeded(o.target_connect)
    &&& request.install_authorized_keys ==> succeeded(o.source_keys) && succeeded(o.target_keys)
    &&& request.copy_key_to_source ==> succeeded(o.copy_key)
    &&& succeeded(o.hop)
}

/// A preparation that has come to its end passed exactly where everything that was asked for
/// succeeded.
pub proof fn law_preparation_passes_iff_all_succeeded(
    request: OffsiteSshPrepareRequest,
    o: OutcomesView,
)
    requires
        next_stage(request, o) is None,
    ensures
        all_ok(result_steps(request, o)) <==> all_succeeded(request, o),
{
    let steps = result_steps(request, o);
    match o.key {
        Some(Ok(key)) => {
            let n = steps.len();
            assert(steps[0].ok && steps[1] == source_connect_step(request, o.source_connect));
            assert(steps[2] == target_connect_step(request, o.target_connect));
            assert(steps[n - 2] == copy_step(request, o) && steps[n - 1] == hop_step(o));
            if request.install_authorized_keys {
                assert(steps[3] == source_keys_step(request, o));
                assert(steps[4] == target_keys_step(request, o));
            }
        },
        Some(Err(message)) => {
            assert(!steps[0].ok);
        },
        None => {},
    }
}

/// How many pieces of outside work have no outcome yet.
pub open spec fn open_work(o: OutcomesView) -> nat {
    let one = |b: bool|
        if b {
            1nat
        } else {
            0nat
        };
    one(o.key is None) + one(o.source_connect is None) + one(o.target_connect is None) + one(
        o.source_keys is None,
    ) + one(o.target_keys is None) + one(o.copy_key is None) + one(o.hop is None)
}

/// A preparation comes to its end: each piece of outside work is asked for at most once.
pub proof fn law_preparation_ends(
    request: OffsiteSshPrepareRequest,
    o: OutcomesView,
    done: Result<(), Seq<char>>,
    key: Result<Seq<char>, Seq<char>>,
)
    requires
        next_stage(request, o) is Some,
    ensures
        ({
            let stage = next_stage(request, o)->0;
            let after = if stage == PrepareStage::ReadKey {
                OutcomesView { key: Some(key), ..o }
            } else {
                recorded(o, stage, Some(done))
            };
            open_work(after) < open_work(o) && next_stage(request, after) != Some(stage)
        }),
{
}

/// Nothing is run on a node that could not be reached.
pub proof fn law_unreachable_nodes_are_left_alone(
    request: OffsiteSshPrepareRequest,
    o: OutcomesView,
    message: Seq<char>,
)
    ensures
        o.source_connect == Some(Err::<(), Seq<char>>(message)) ==> (next_stage(request, o)
            != Some(PrepareStage::SourceKeys) && next_stage(request, o) != Some(
            PrepareStage::CopyKey,
        ) && next_stage(request, o) != Some(PrepareStage::Hop)),
        o.target_connect == Some(Err::<(), Seq<char>>(message)) ==> (next_stage(request, o)
            != Some(PrepareStage::TargetKeys) && next_stage(request, o) != Some(
            PrepareStage::Hop,
        )),
{
}

/// An existing key is never touched without leave to overwrite it.
pub proof fn law_existing_key_is_kept_without_leave(
    request: OffsiteSshKeygenRequest,
    private_exists: bool,
    public_exists: bool,
)
    requires
        private_exists || public_exists,
        !request.overwrite,
    ensures
        !(keygen_plan(request, private_exists, public_exists) matches Ok(
            KeygenPlanView::Generate(_, _, _),
        )),
{
}

/// Every piece of outside work is done on the node that it is about, as the user that the request
/// names for that node: the target's connection and keys on the target node, and the source's
/// connection and keys, the copied key and the hop on the source node.
pub proof fn law_work_is_done_on_its_own_node(
    request: OffsiteSshPrepareRequest,
    source: (Seq<char>, Option<u16>),
    target: (Seq<char>, Option<u16>),
    public_key: Seq<char>,
)
    ensures
        stage_work(request, source, target, public_key, PrepareStage::ReadKey)
            == WorkView::ReadKey(request.ssh_private_key@),
        stage_work(request, source, target, public_key, PrepareStage::SourceConnect)
            == WorkView::Script(
            request.source_remote@,
            request.source_node@,
            request.source_user@,
            "id -un >/dev/null"@,
        ),
        stage_work(request, source, target, public_key, PrepareStage::TargetConnect)
            == WorkView::Script(
            request.target_remote@,
            request.target_node@,
            request.target_user@,
            "id -un >/dev/null"@,
        ),
        stage_work(
            request,
            source,
            target,
            public_key,
            PrepareStage::SourceKeys,
        ) matches WorkView::Script(remote, node, user, script) && remote == request.source_remote@
            && node == request.source_node@ && user == request.source_user@ && stand_in_order(
            script,
            seq![
                "grep -qxF "@ + escaped(public_key),
                "printf '%s\\n' "@ + escaped(public_key)
                    + " >> \"$HOME/.ssh/authorized_keys\"\n"@,
            ],
        ),
        stage_work(
            request,
            source,
            target,
            public_key,
            PrepareStage::TargetKeys,
        ) matches WorkView::Script(remote, node, user, script) && remote == request.target_remote@
            && node == request.target_node@ && user == request.target_user@ && stand_in_order(
            script,
            seq![
                "grep -qxF "@ + escaped(public_key),
                "printf '%s\\n' "@ + escaped(public_key)
                    + " >> \"$HOME/.ssh/authorized_keys\"\n"@,
            ],
        ),
        stage_work(
            request,
            source,
            target,
            public_key,
            PrepareStage::CopyKey,
        ) matches WorkView::Copy(args, remote, node, user, script) && remote
            == request.source_remote@ && node == request.source_node@ && user
            == request.source_user@ && args.len() >= 2 && args[args.len() - 2]
            == request.ssh_private_key@ && args.last() == request.source_user@ + "@"@
            + connection_host(source.0) + ":"@ + request.ssh_private_key@ && occurs(
            script,
            "chmod 600 "@ + escaped(request.ssh_private_key@) + "\n"@,
        ),
        stage_work(
            request,
            source,
            target,
            public_key,
            PrepareStage::Hop,
        ) matches WorkView::Script(remote, node, user, script) && remote == request.source_remote@
            && node == request.source_node@ && user == request.source_user@ && has_suffix(
            script,
            escaped(request.target_user@ + "@"@ + connection_host(target.0)) + " -- true"@,
        ) && occurs(script, "-i "@ + escaped(request.ssh_private_key@)),
{
    let key = request.ssh_private_key@;
    lemma_install_key_script(public_key);
    lemma_settle_key_script(key);
    lemma_hop_script(key, request.target_user@, target.0, target.1);
}

proof fn lemma_install_key_script(public_key: Seq<char>)
    ensures
        stand_in_order(
            install_key_script_of(public_key),
            seq![
                "grep -qxF "@ + escaped(public_key),
                "printf '%s\\n' "@ + escaped(public_key)
                    + " >> \"$HOME/.ssh/authorized_keys\"\n"@,
            ],
        ),
{
    let word = escaped(public_key);
    let head =
        "set -eu\ninstall -d -m 700 \"$HOME/.ssh\"\ntouch \"$HOME/.ssh/authorized_keys\"\nchmod 600 \"$HOME/.ssh/authorized_keys\"\nif ! grep -qxF "@;
    let before =
        "set -eu\ninstall -d -m 700 \"$HOME/.ssh\"\ntouch \"$HOME/.ssh/authorized_keys\"\nchmod 600 \"$HOME/.ssh/authorized_keys\"\nif ! "@;
    let middle = " \"$HOME/.ssh/authorized_keys\"; then\nprintf '%s\\n' "@;
    let between = " \"$HOME/.ssh/authorized_keys\"; then\n"@;
    let end = " >> \"$HOME/.ssh/authorized_keys\"\nfi\n"@;
    let appended = " >> \"$HOME/.ssh/authorized_keys\"\n"@;
    assert(head =~= before + "grep -qxF "@) by {
        reveal_strlit(
            "set -eu\ninstall -d -m 700 \"$HOME/.ssh\"\ntouch \"$HOME/.ssh/authorized_keys\"\nchmod 600 \"$HOME/.ssh/authorized_keys\"\nif ! grep -qxF ",
        );
        reveal_strlit(
            "set -eu\ninstall -d -m 700 \"$HOME/.ssh\"\ntouch \"$HOME/.ssh/authorized_keys\"\nchmod 600 \"$HOME/.ssh/authorized_keys\"\nif ! ",
        );
        reveal_strlit("grep -qxF ");
    }
    assert(middle =~= between + "printf '%s\\n' "@) by {
        reveal_strlit(" \"$HOME/.ssh/authorized_keys\"; then\nprintf '%s\\n' ");
        reveal_strlit(" \"$HOME/.ssh/authorized_keys\"; then\n");
        reveal_strlit("printf '%s\\n' ");
    }
    assert(end =~= appended + "fi\n"@) by {
        reveal_strlit(" >> \"$HOME/.ssh/authorized_keys\"\nfi\n");
        reveal_strlit(" >> \"$HOME/.ssh/authorized_keys\"\n");
        reveal_strlit("fi\n");
    }
    lemma_test_and_append(
        head,
        before,
        "grep -qxF "@,
        word,
        middle,
        between,
        "printf '%s\\n' "@,
        end,
        appended,
        "fi\n"@,
    );
}

proof fn lemma_test_and_append(
    head: Seq<char>,
    before: Seq<char>,
    test: Seq<char>,
    word: Seq<char>,
    middle: Seq<char>,
    between: Seq<char>,
    print: Seq<char>,
    end: Seq<char>,
    appended: Seq<char>,
    fi: Seq<char>,
)
    requires
        head == before + test,
        middle == between + print,
        end == appended + fi,
    ensures
        stand_in_order(
            head + word + middle + word + end,
            seq![test + word, print + word + appended],
        ),
{
    let first = test + word;
    let second = print + word + appended;
    let rest = between + second + fi;
    assert(head + word + middle + word + end =~= before + first + rest);
    let parts = seq![first, second];
    let q = parts.skip(1);
    assert(q.skip(1) =~= seq![]);
    lemma_order_where_put(between, second, fi, q);
    lemma_order_where_put(before, first, rest, parts);
}

proof fn lemma_settle_key_script(key: Seq<char>)
    ensures
        occurs(settle_key_script_of(key), "chmod 600 "@ + escaped(key) + "\n"@),
{
    let public = key + ".pub"@;
    let head = "set -eu\ninstall -d -m 700 \"$HOME/.ssh\"\nchmod 600 "@;
    let before = "set -eu\ninstall -d -m 700 \"$HOME/.ssh\"\n"@;
    let line = "chmod 600 "@ + escaped(key) + "\n"@;
    assert(head =~= before + "chmod 600 "@) by {
        reveal_strlit("set -eu\ninstall -d -m 700 \"$HOME/.ssh\"\nchmod 600 ");
        reveal_strlit("set -eu\ninstall -d -m 700 \"$HOME/.ssh\"\n");
        reveal_strlit("chmod 600 ");
    }
    assert("\nif [ ! -s "@ =~= "\n"@ + "if [ ! -s "@) by {
        reveal_strlit("\nif [ ! -s ");
        reveal_strlit("\n");
        reveal_strlit("if [ ! -s ");
    }
    let tail = escaped(public) + " ]; then\nssh-keygen -y -f "@ + escaped(key) + " > "@ + escaped(
        public,
    ) + "\nfi\nchmod 644 "@ + escaped(public) + "\n"@;
    let rest = "if [ ! -s "@ + tail;
    assert(settle_key_script_of(key) =~= head + escaped(key) + "\nif [ ! -s "@ + tail);
    assert(head + escaped(key) + "\nif [ ! -s "@ + tail =~= before + line + rest);
    lemma_stands_where_put(before, line, rest);
}

proof fn lemma_hop_script(key: Seq<char>, user: Seq<char>, host: Seq<char>, port: Option<u16>)
    ensures
        has_suffix(
            hop_script_of(key, user, host, port),
            escaped(user + "@"@ + connection_host(host)) + " -- true"@,
        ),
        occurs(hop_script_of(key, user, host, port), "-i "@ + escaped(key)),
{
    let script = hop_script_of(key, user, host, port);
    let head = "ssh -o BatchMode=yes -o StrictHostKeyChecking=accept-new -i "@;
    let before = "ssh -o BatchMode=yes -o StrictHostKeyChecking=accept-new "@;
    assert(head =~= before + "-i "@) by {
        reveal_strlit("ssh -o BatchMode=yes -o StrictHostKeyChecking=accept-new -i ");
        reveal_strlit("ssh -o BatchMode=yes -o StrictHostKeyChecking=accept-new ");
        reveal_strlit("-i ");
    }
    let option = hop_port_option(port);
    let end = escaped(user + "@"@ + connection_host(host)) + " -- true"@;
    let rest = " "@ + option + end;
    assert(script =~= before + ("-i "@ + escaped(key)) + rest);
    assert(script.skip(script.len() - end.len()) =~= end);
    lemma_stands_where_put(before, "-i "@ + escaped(key), rest);
}

/// The outside work comes in order. The key is read first; without it nothing else is tried. Then
/// both nodes are tried, then keys are installed on those that were reached, then the key is copied,
/// and the hop comes last.
pub proof fn law_stages_come_in_order(request: OffsiteSshPrepareRequest, o: OutcomesView)
    ensures
        next_stage(request, o) == Some(PrepareStage::ReadKey) <==> o.key is None,
        o.key matches Some(Err(_)) ==> next_stage(request, o) is None,
        next_stage(request, o) == Some(PrepareStage::SourceConnect) <==> (o.key matches Some(Ok(_))
            && o.source_connect is None),
        next_stage(request, o) == Some(PrepareStage::TargetConnect) <==> (o.key matches Some(Ok(_))
            && o.source_connect is Some && o.target_connect is None),
        next_stage(request, o) == Some(PrepareStage::SourceKeys) <==> (o.key matches Some(Ok(_))
            && (o.source_connect matches Some(Ok(_))) && o.target_connect is Some
            && request.install_authorized_keys && o.source_keys is None),
        next_stage(request, o) == Some(PrepareStage::TargetKeys) ==> (
        (o.target_connect matches Some(Ok(_))) && request.install_authorized_keys && o.target_keys
            is None && (o.source_connect matches Some(Ok(_)) ==> o.source_keys is Some)),
        next_stage(request, o) == Some(PrepareStage::CopyKey) ==> (
        (o.source_connect matches Some(Ok(_))) && request.copy_key_to_source && o.copy_key is None
            && (request.install_authorized_keys ==> o.source_keys is Some && (
        (o.target_connect matches Some(Ok(_))) ==> o.target_keys is Some))),
        next_stage(request, o) == Some(PrepareStage::Hop) ==> (o.source_connect matches Some(Ok(_))
            && (o.target_connect matches Some(Ok(_))) && o.hop is None && (
        request.install_authorized_keys ==> o.source_keys is Some && o.target_keys is Some) && (
        request.copy_key_to_source ==> o.copy_key is Some)),
{
}

/// A preparation with a usable key ends only when everything that was asked for, and that the
/// connections allow, has been tried.
pub proof fn law_nothing_is_left_out(request: OffsiteSshPrepareRequest, o: OutcomesView)
    requires
        next_stage(request, o) is None,
        (o.key matches Some(Ok(_))),
    ensures
        o.source_connect is Some,
        o.target_connect is Some,
        request.install_authorized_keys && (o.source_connect matches Some(Ok(_)))
            ==> o.source_keys is Some,
        request.install_authorized_keys && (o.target_connect matches Some(Ok(_)))
            ==> o.target_keys is Some,
        request.copy_key_to_source && (o.source_connect matches Some(Ok(_))) ==> o.copy_key is Some,
        (o.source_connect matches Some(Ok(_))) && (o.target_connect matches Some(Ok(_)))
            ==> o.hop is Some,
{
}

/// An outcome is noted under its own stage, and the others stay as they are.
pub proof fn law_outcomes_are_kept_apart(
    o: OutcomesView,
    done: Option<Result<(), Seq<char>>>,
)
    ensures
        ({
            let after = recorded(o, PrepareStage::SourceConnect, done);
            after.source_connect == done && after == (OutcomesView {
                source_connect: after.source_connect,
                ..o
            })
        }),
        ({
            let after = recorded(o, PrepareStage::TargetConnect, done);
            after.target_connect == done && after == (OutcomesView {
                target_connect: after.target_connect,
                ..o
            })
        }),
        ({
            let after = recorded(o, PrepareStage::SourceKeys, done);
            after.source_keys == done && after == (OutcomesView {
                source_keys: after.source_keys,
                ..o
            })
        }),
        ({
            let after = recorded(o, PrepareStage::TargetKeys, done);
            after.target_keys == done && after == (OutcomesView {
                target_keys: after.target_keys,
                ..o
            })
        }),
        ({
            let after = recorded(o, PrepareStage::CopyKey, done);
            after.copy_key == done && after == (OutcomesView { copy_key: after.copy_key, ..o })
        }),
        ({
            let after = recorded(o, PrepareStage::Hop, done);
            after.hop == done && after == (OutcomesView { hop: after.hop, ..o })
        }),
        recorded(o, PrepareStage::ReadKey, done) == o,
{
}

/// The result tells of every piece of work under its own name, in the order in which they came: it
/// passed, or the message of its failure.
pub proof fn law_steps_tell_what_came_of_the_work(
    request: OffsiteSshPrepareRequest,
    o: OutcomesView,
)
    requires
        next_stage(request, o) is None,
        (o.key matches Some(Ok(_))),
        request.install_authorized_keys,
    ensures
        ({
            let steps = result_steps(request, o);
            &&& steps.len() == 7
            &&& steps[0].name == "key-check"@ && steps[0].ok
            &&& steps[1].name == "source-connect"@ && (steps[1].ok
                <==> (o.source_connect matches Some(Ok(_))))
            &&& steps[2].name == "target-connect"@ && (steps[2].ok
                <==> (o.target_connect matches Some(Ok(_))))
            &&& steps[3].name == "source-authorized-keys"@ && (steps[3].ok
                <==> (o.source_connect matches Some(Ok(_))) && (o.source_keys matches Some(Ok(_))))
            &&& steps[4].name == "target-authorized-keys"@ && (steps[4].ok
                <==> (o.target_connect matches Some(Ok(_))) && (o.target_keys matches Some(Ok(_))))
            &&& steps[5].name == "copy-key-to-source"@ && (steps[5].ok <==> (
            request.copy_key_to_source ==> (o.source_connect matches Some(Ok(_)))
                && (o.copy_key matches Some(Ok(_)))))
            &&& steps[6].name == "source-to-target-hop"@ && (steps[6].ok
                <==> (o.source_connect matches Some(Ok(_))) && (o.target_connect matches Some(Ok(_)))
                && (o.hop matches Some(Ok(_))))
            &&& o.source_connect matches Some(Err(message)) ==> steps[1].message == message
                && steps[1].field == Some("source-user"@)
            &&& o.target_connect matches Some(Err(message)) ==> steps[2].message == message
                && steps[2].field == Some("target-user"@)
            &&& steps[1].ok ==> (o.source_keys matches Some(Err(message)) ==> steps[3].message
                == message)
            &&& steps[2].ok ==> (o.target_keys matches Some(Err(message)) ==> steps[4].message
                == message)
            &&& steps[1].ok && request.copy_key_to_source ==> (
            o.copy_key matches Some(Err(message)) ==> steps[5].message == message)
            &&& steps[1].ok && steps[2].ok ==> (o.hop matches Some(Err(message))
                ==> steps[6].message == message)
            &&& !steps[1].ok ==> steps[3].code == Some("skipped"@) && steps[6].code == Some(
                "skipped"@,
            ) && (request.copy_key_to_source ==> steps[5].code == Some("skipped"@))
            &&& !steps[2].ok ==> steps[4].code == Some("skipped"@) && steps[6].code == Some(
                "skipped"@,
            )
        }),
{
    law_nothing_is_left_out(request, o);
    let steps = result_steps(request, o);
    assert(steps[1] == source_connect_step(request, o.source_connect));
    assert(steps[2] == target_connect_step(request, o.target_connect));
    assert(steps[3] == source_keys_step(request, o));
    assert(steps[4] == target_keys_step(request, o));
    assert(steps[5] == copy_step(request, o));
    assert(steps[6] == hop_step(o));
}

/// Where no keys are to be installed, one step says so in the place of two; and without a usable key
/// the only step tells why.
pub proof fn law_short_results(request: OffsiteSshPrepareRequest, o: OutcomesView)
    ensures
        (o.key matches Some(Ok(_))) && !request.install_authorized_keys ==> {
            let with = OffsiteSshPrepareRequest { install_authorized_keys: true, ..request };
            let steps = result_steps(request, o);
            let more = result_steps(with, o);
            &&& steps.len() == 6
            &&& steps.take(3) == more.take(3)
            &&& steps[3].name == "authorized-keys"@ && steps[3].ok
            &&& steps.skip(4) == more.skip(5)
        },
        o.key matches Some(Err(message)) ==> result_steps(request, o).len() == 1 && result_steps(
            request,
            o,
        )[0].message == message && !result_steps(request, o)[0].ok && result_steps(
            request,
            o,
        )[0].name == "key-check"@,
{
    if o.key is Some && o.key->0 is Ok && !request.install_authorized_keys {
        let with = OffsiteSshPrepareRequest { install_authorized_keys: true, ..request };
        let steps = result_steps(request, o);
        let more = result_steps(with, o);
        assert(steps.take(3) =~= more.take(3));
        assert(copy_step(request, o) == copy_step(with, o));
        assert(steps.skip(4) =~= more.skip(5));
    }
}

/// A failed connection is told apart by its message: a refused login has a code of its own.
pub proof fn law_refused_login_has_its_code(before: Seq<char>, after: Seq<char>)
    ensures
        connect_code(before + "Permission denied"@ + after) == "connect_auth_failed"@,
{
    lemma_stands_where_put(before, "Permission denied"@, after);
}

/// How to let a user in is told for the node that the user could not reach.
pub proof fn law_remediation_names_the_node(remote: Seq<char>, node: Seq<char>, user: Seq<char>)
    ensures
        has_prefix(user_remediation(remote, node, user), "On "@ + remote + "/"@ + node),
        user != "root"@ ==> occurs(
            user_remediation(remote, node, user),
            "create or unlock user '"@ + user + "' and install the public key."@,
        ),
{
    let start = "On "@ + remote + "/"@ + node;
    let text = user_remediation(remote, node, user);
    assert(text.take(start.len() as int) =~= start);
    if user != "root"@ {
        assert(", create or unlock user '"@ =~= ", "@ + "create or unlock user '"@) by {
            reveal_strlit(", create or unlock user '");
            reveal_strlit(", ");
            reveal_strlit("create or unlock user '");
        }
        assert("' and install the public key.\nExample:\nuseradd -m -s /bin/bash "@
            =~= "' and install the public key."@ + "\nExample:\nuseradd -m -s /bin/bash "@) by {
            reveal_strlit("' and install the public key.\nExample:\nuseradd -m -s /bin/bash ");
            reveal_strlit("' and install the public key.");
            reveal_strlit("\nExample:\nuseradd -m -s /bin/bash ");
        }
        let words = "create or unlock user '"@ + user + "' and install the public key."@;
        let tail = user + " || true\ninstall -d -m 700 ~"@ + user + "/.ssh\ntouch ~"@ + user
            + "/.ssh/authorized_keys\nchown -R "@ + user + ":"@ + user + " ~"@ + user
            + "/.ssh\nchmod 600 ~"@ + user + "/.ssh/authorized_keys"@;
        let rest = "\nExample:\nuseradd -m -s /bin/bash "@ + tail;
        assert(text =~= start + ", create or unlock user '"@ + user
            + "' and install the public key.\nExample:\nuseradd -m -s /bin/bash "@ + tail);
        assert(text =~= (start + ", "@) + words + rest);
        lemma_stands_where_put(start + ", "@, words, rest);
    }
}

/// A preparation names the hosts of both nodes, each under its own side, and nothing is done without
/// both of them.
pub proof fn law_preparation_needs_both_hosts(
    request: OffsiteSshPrepareRequest,
    source: Option<(Seq<char>, Option<u16>)>,
    target: Option<(Seq<char>, Option<u16>)>,
    o: OutcomesView,
)
    requires
        ssh_user_verdict(request.source_user@) is Ok,
        ssh_user_verdict(request.target_user@) is Ok,
        key_path_verdict(request.ssh_private_key@) is Ok,
    ensures
        source is None ==> progress_of(request, source, target, o) == Err::<
            ProgressView,
            Seq<char>,
        >("failed to resolve source node host"@),
        source is Some && target is None ==> progress_of(request, source, target, o) == Err::<
            ProgressView,
            Seq<char>,
        >("failed to resolve target node host"@),
        source is Some && target is Some ==> match progress_of(request, source, target, o) {
            Ok(ProgressView::Work(stage, work)) => next_stage(request, o) == Some(stage) && work
                == stage_work(request, source->0, target->0, found_key(o), stage),
            Ok(ProgressView::Done(ok, source_host, target_host, steps)) => {
                &&& next_stage(request, o) is None
                &&& source_host == (source->0).0
                &&& target_host == (target->0).0
                &&& steps == result_steps(request, o)
                &&& ok <==> all_succeeded(request, o)
            },
            Err(_) => false,
        },
{
    if next_stage(request, o) is None {
        law_preparation_passes_iff_all_succeeded(request, o);
    }
}

/// A key pair is made at the requested path and nowhere else. What was there before is removed, and
/// the result tells whether a pair was replaced or a new one made.
pub proof fn law_key_pair_is_made_at_its_path(
    request: OffsiteSshKeygenRequest,
    private_exists: bool,
    public_exists: bool,
    text: Seq<char>,
    fingerprint: Option<Seq<char>>,
)
    requires
        key_path_verdict(request.ssh_private_key@) is Ok,
        request.overwrite || !private_exists && !public_exists,
    ensures
        keygen_plan(request, private_exists, public_exists) matches Ok(
            KeygenPlanView::Generate(private, public, args),
        ) && private == private_exists && public == public_exists && args.len() >= 2 && args[
            args.len() - 2
        ] == "-f"@ && args.last() == request.ssh_private_key@,
        keygen_result(
            request,
            private_exists,
            public_exists,
            true,
            text,
            fingerprint,
        ) matches Ok(result) && result.ok && result.ssh_private_key == request.ssh_private_key@
            && result.fingerprint == fingerprint && result.status == (if private_exists
            || public_exists {
            "overwritten"@
        } else {
            "created"@
        }),
        keygen_result(
            request,
            private_exists,
            public_exists,
            false,
            text,
            fingerprint,
        ) == Err::<KeygenView, Seq<char>>("ssh-keygen failed: "@ + text),
{
}

/// A key pair that exists is reported as such where it must not be replaced.
pub proof fn law_existing_key_is_reported(
    request: OffsiteSshKeygenRequest,
    private_exists: bool,
    public_exists: bool,
    success: bool,
    text: Seq<char>,
    fingerprint: Option<Seq<char>>,
)
    requires
        key_path_verdict(request.ssh_private_key@) is Ok,
        private_exists || public_exists,
        !request.overwrite,
    ensures
        keygen_result(
            request,
            private_exists,
            public_exists,
            success,
            text,
            fingerprint,
        ) matches Ok(result) && !result.ok && result.status == "exists"@ && result.ssh_private_key
            == request.ssh_private_key@ && result.fingerprint is None,
{
}

/// The stored public key is the first line of its file, without white space around it. It has to be
/// derived where there is no file, or nothing in the first line; without the private key it is told
/// missing.
pub proof fn law_stored_key_is_the_first_line(path: Seq<char>, line: Seq<char>, rest: Seq<char>)
    requires
        !line.contains('\n'),
        line.len() > 0,
        line.last() != '\r',
    ensures
        trimmed(line).len() > 0 ==> stored_key(path, true, Some(line.push('\n') + rest)) == Ok::<
            Option<Seq<char>>,
            Seq<char>,
        >(Some(trimmed(line))),
        trimmed(line).len() == 0 ==> stored_key(path, true, Some(line.push('\n') + rest)) == Ok::<
            Option<Seq<char>>,
            Seq<char>,
        >(None),
        stored_key(path, true, None) == Ok::<Option<Seq<char>>, Seq<char>>(None),
        stored_key(path, true, Some(Seq::empty())) == Ok::<Option<Seq<char>>, Seq<char>>(None),
        forall|file: Option<Seq<char>>|
            #[trigger] stored_key(path, false, file) == Err::<Option<Seq<char>>, Seq<char>>(
                "private key '"@ + path + "' does not exist"@,
            ),
{
    law_lines_come_one_by_one(line, rest);
    let all = lines_of(line.push('\n') + rest);
    assert(all[0] == line);
}

/// The derived public key is what the tool printed, without white space around it. A failure of the
/// tool is told with its output, and an empty answer as such.
pub proof fn law_derived_key_is_what_was_printed(
    path: Seq<char>,
    all: Seq<char>,
    stdout: Seq<char>,
)
    ensures
        trimmed(stdout).len() > 0 ==> derived_key(path, true, all, stdout) == Ok::<
            Seq<char>,
            Seq<char>,
        >(trimmed(stdout)),
        trimmed(stdout).len() == 0 ==> derived_key(path, true, all, stdout) == Err::<
            Seq<char>,
            Seq<char>,
        >("derived public key for '"@ + path + "' is empty"@),
        derived_key(path, false, all, stdout) == Err::<Seq<char>, Seq<char>>(
            "failed to derive public key for '"@ + path + "': "@ + all,
        ),
{
}

/// The key counts as copied exactly where it is there and `scp` succeeded; why not is told.
pub proof fn law_key_is_copied_by_scp(key: Seq<char>, text: Seq<char>)
    ensures
        copied(key, true, Some((true, text))) is Ok,
        copied(key, true, Some((false, text))) == Err::<(), Seq<char>>(
            "failed to copy SSH key to source host: "@ + text,
        ),
        copied(key, true, None) == Err::<(), Seq<char>>("failed to copy SSH key to source host"@),
        copied(key, false, Some((true, text))) == Err::<(), Seq<char>>(
            "private key '"@ + key + "' does not exist"@,
        ),
{
}

/// The fingerprint is the second word that the tool printed.
pub proof fn law_fingerprint_is_the_second_word(
    bits: Seq<char>,
    fingerprint: Seq<char>,
    rest: Seq<char>,
    all: Seq<char>,
)
    requires
        bits.len() > 0,
        forall|i: int| 0 <= i < bits.len() ==> !is_white(#[trigger] bits[i]),
        fingerprint.len() > 0,
        forall|i: int| 0 <= i < fingerprint.len() ==> !is_white(#[trigger] fingerprint[i]),
    ensures
        fingerprint_in(true, all, bits.push(' ') + (fingerprint.push(' ') + rest)) == Ok::<
            Seq<char>,
            Seq<char>,
        >(fingerprint),
        fingerprint_in(true, all, bits) == Err::<Seq<char>, Seq<char>>(
            "unable to parse key fingerprint"@,
        ),
        fingerprint_in(false, all, bits) == Err::<Seq<char>, Seq<char>>(
            "failed to read fingerprint: "@ + all,
        ),
{
    law_words_come_one_by_one(fingerprint, ' ', rest);
    law_words_come_one_by_one(bits, ' ', fingerprint.push(' ') + rest);
    let words = words_of(bits.push(' ') + (fingerprint.push(' ') + rest));
    assert(words =~= seq![bits] + (seq![fingerprint] + words_of(rest)));
    assert(words[1] == fingerprint);
}

/// A failed key check is told apart by its message: a missing key, one that cannot be read, and
/// anything else.
pub proof fn law_failed_key_check_has_its_code(message: Seq<char>)
    ensures
        occurs(message, "does not exist"@) ==> key_check_code(message) == "missing_private_key"@,
        !occurs(message, "does not exist"@) && (occurs(message, "Permission denied"@) || occurs(
            message,
            "not readable"@,
        )) ==> key_check_code(message) == "unreadable_private_key"@,
        !occurs(message, "does not exist"@) && !occurs(message, "Permission denied"@) && !occurs(
            message,
            "not readable"@,
        ) ==> key_check_code(message) == "key_check_failed"@,
        !occurs(message, "Permission denied"@) ==> connect_code(message) == "connect_failed"@,
{
}

/// The hop goes to the target's port, where that is not one of the API.
pub proof fn law_hop_goes_to_the_port(port: u16)
    ensures
        port != 8006 && port != 8007 ==> hop_port_option(Some(port)) == "-p "@ + decimal(
            port as nat,
        ) + " "@,
        hop_port_option(Some(8006)) == ""@,
        hop_port_option(Some(8007)) == ""@,
        hop_port_option(None) == ""@,
{
}

/// A preparation starts with nothing done, and so with reading the key.
pub proof fn law_preparation_starts_with_the_key(request: OffsiteSshPrepareRequest)
    ensures
        ({
            let o = nothing_done();
            &&& o.key is None && o.source_connect is None && o.target_connect is None
            &&& o.source_keys is None && o.target_keys is None && o.copy_key is None && o.hop is None
            &&& next_stage(request, o) == Some(PrepareStage::ReadKey)
        }),
{
}

/// Where the key cannot be read, the step says so: it fails, it tells what was said, and it names the
/// key that has to be there.
pub proof fn law_failed_key_step_names_the_key(request: OffsiteSshPrepareRequest, message: Seq<char>)
    ensures
        !key_step(request, Err(message)).ok,
        key_step(request, Err(message)).message == message,
        key_step(request, Err(message)).remediation matches Some(advice) ==> occurs(
            advice,
            request.ssh_private_key@,
        ),
        key_step(request, Err(message)).remediation is Some,
        forall|key: Seq<char>| (#[trigger] key_step(request, Ok(key))).ok,
{
    lemma_stands_where_put(
        "Ensure '"@,
        request.ssh_private_key@,
        "' exists and is readable by the PDM service user."@,
    );
}

} // verus!
