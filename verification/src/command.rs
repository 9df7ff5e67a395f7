//! Commands that run outside: what they are called with, and what their output means.
use crate::number::{all_digits, decimal, parsed, to_decimal};
use crate::shell::{escaped, shell_escape};
use crate::sync::push_decimal;
use crate::text::{
    blank, contains, cut_first, has_prefix, is_alnum, is_blank, occurs, starts_with, texts,
};
use crate::types::{text_outcome, Error, GuestType, OffsiteReplicationJob};
use vstd::prelude::*;
use vstd::utf8::{decode_utf8, valid_utf8};

verus! {

// ---------------------------------------------------------------------------------------------
// Output
// ---------------------------------------------------------------------------------------------

/// What a command left behind.
#[derive(Debug)]
pub struct CommandOutput {
    /// Standard output.
    pub stdout: Vec<u8>,
    /// Standard error.
    pub stderr: Vec<u8>,
    /// Whether the command succeeded.
    pub success: bool,
    /// The exit code; a command that a signal ended has none.
    pub code: Option<i32>,
}

/// The text that `String::from_utf8_lossy` gives for the bytes.
pub uninterp spec fn lossy_text(bytes: Seq<u8>) -> Seq<char>;

/// `String::from_utf8_lossy`: bytes that are valid UTF-8 are decoded. What stands for bytes that are
/// not is left unsaid: the result has a name, and depends on the bytes alone.
#[verifier::external_body]
fn from_utf8_lossy(bytes: &Vec<u8>) -> (r: String)
    ensures
        r@ == lossy_text(bytes@),
        valid_utf8(bytes@) ==> r@ == decode_utf8(bytes@),
{
    String::from_utf8_lossy(bytes).into_owned()
}

/// Both outputs as one text, with a line break between them where both are there.
pub open spec fn merged(stdout: Seq<u8>, stderr: Seq<u8>) -> Seq<char> {
    let first = if stdout.len() > 0 {
        lossy_text(stdout)
    } else {
        Seq::empty()
    };
    merged_texts(
        first,
        if stderr.len() > 0 {
            Some(lossy_text(stderr))
        } else {
            None
        },
    )
}

/// Two texts as one, with a line break between them where both are there.
pub open spec fn merged_texts(first: Seq<char>, second: Option<Seq<char>>) -> Seq<char> {
    match second {
        None => first,
        Some(second) => if first.len() == 0 {
            first + second
        } else {
            first.push('\n') + second
        },
    }
}

/// What the command put out.
pub open spec fn output_text(output: CommandOutput) -> Seq<char> {
    merged(output.stdout@, output.stderr@)
}

/// Two texts as one, with a line break between them where both are there.
pub fn merge_texts(first: String, second: &Option<String>) -> (r: String)
    ensures
        r@ == merged_texts(first@, crate::text::opt_text(*second)),
{
    let mut all = first;
    if let Some(second) = second {
        if !all.as_str().is_empty() {
            all.push('\n');
        }
        all.append(second.as_str());
    }
    all
}

/// Both outputs of a command as one text.
pub fn merge_command_output(output: &CommandOutput) -> (r: String)
    ensures
        r@ == output_text(*output),
{
    let first = if output.stdout.len() > 0 {
        from_utf8_lossy(&output.stdout)
    } else {
        String::new()
    };
    assert(output.stdout@.len() == 0 ==> first@ =~= Seq::<char>::empty());
    let second = if output.stderr.len() > 0 {
        Some(from_utf8_lossy(&output.stderr))
    } else {
        None
    };
    merge_texts(first, &second)
}

/// Standard output of a command as text.
pub fn stdout_text(output: &CommandOutput) -> (r: String)
    ensures
        r@ == lossy_text(output.stdout@),
{
    from_utf8_lossy(&output.stdout)
}

/// The output of a script that ran on a node, or why it failed.
pub open spec fn checked(remote: Seq<char>, node: Seq<char>, success: bool, text: Seq<char>) -> Result<
    Seq<char>,
    Seq<char>,
> {
    if success {
        Ok(text)
    } else if is_blank(text) {
        Err("ssh command against '"@ + remote + "/"@ + node + "' failed"@)
    } else {
        Err(text)
    }
}

/// The text of a script's output, or why the script failed: what it put out, where it put out
/// anything.
pub fn check_text(remote: &str, node: &str, success: bool, text: String) -> (r: Result<
    String,
    Error,
>)
    ensures
        text_outcome(r) == checked(remote@, node@, success, text@),
{
    if success {
        Ok(text)
    } else if blank(text.as_str()) {
        Err(Error::of5("ssh command against '", remote, "/", node, "' failed"))
    } else {
        Err(Error { message: text })
    }
}

/// The output of a script that ran on a node, or why it failed. No output is there where `ssh` could
/// not be executed.
pub fn run_ssh_script_checked(remote: &str, node: &str, output: &Option<CommandOutput>) -> (r: Result<
    String,
    Error,
>)
    ensures
        text_outcome(r) == (match *output {
            None => Err(ssh_not_executed(remote@, node@)),
            Some(output) => checked(remote@, node@, output.success, output_text(output)),
        }),
{
    match output {
        None => Err(Error::of5("failed to execute ssh against '", remote, "/", node, "'")),
        Some(output) => {
            let text = merge_command_output(output);
            check_text(remote, node, output.success, text)
        },
    }
}

/// The message that `ssh` could not be executed.
pub open spec fn ssh_not_executed(remote: Seq<char>, node: Seq<char>) -> Seq<char> {
    "failed to execute ssh against '"@ + remote + "/"@ + node + "'"@
}

// ---------------------------------------------------------------------------------------------
// Hosts and ports
// ---------------------------------------------------------------------------------------------

/// The host and the port that `http::uri::Authority` reads in the text.
pub uninterp spec fn authority_parts(text: Seq<char>) -> Option<(Seq<char>, Option<u16>)>;

/// A host's name of letters, digits, `-` and `.`.
pub open spec fn is_plain_host(s: Seq<char>) -> bool {
    &&& s.len() > 0
    &&& forall|i: int| 0 <= i < s.len() ==> is_alnum(#[trigger] s[i]) || s[i] == '-' || s[i] == '.'
}

/// The port that digits give, where they give one.
pub open spec fn port_of(digits: Seq<char>) -> Option<u16> {
    match parsed(digits, u16::MAX as nat) {
        Some(n) => Some(n as u16),
        None => None,
    }
}

/// The host and the port of a plain host, with a colon and digits behind it or without.
pub open spec fn plain_authority(s: Seq<char>) -> Option<(Seq<char>, Option<u16>)> {
    if is_plain_host(s) {
        Some((s, None))
    } else {
        match cut_first(s, ":"@) {
            Some((host, port)) => if is_plain_host(host) && port.len() > 0 && all_digits(port) {
                Some((host, port_of(port)))
            } else {
                None
            },
            None => None,
        }
    }
}

pub open spec fn host_view(o: Option<(String, Option<u16>)>) -> Option<(Seq<char>, Option<u16>)> {
    match o {
        Some((host, port)) => Some((host@, port)),
        None => None,
    }
}

/// `http::uri::Authority`, parsed from the text: its `host` and its `port_u16`, or nothing where the
/// text is no authority. A plain host is read as that host without a port, and a plain host with a
/// colon and digits as that host with that port, unless the digits give none. What is read in other
/// texts (user info, addresses in brackets) has a name.
#[verifier::external_body]
fn read_authority(text: &str) -> (r: Option<(String, Option<u16>)>)
    ensures
        host_view(r) == authority_parts(text@),
        plain_authority(text@) is Some ==> host_view(r) == plain_authority(text@),
{
    match text.parse::<http::uri::Authority>() {
        Ok(authority) => Some((authority.host().to_string(), authority.port_u16())),
        Err(_) => None,
    }
}

/// The host and port to connect to: those that were read, with port 22 where none was read, and the
/// text itself where nothing was read.
pub open spec fn connection(host: Seq<char>, read: Option<(Seq<char>, Option<u16>)>) -> (
    Seq<char>,
    Option<u16>,
) {
    match read {
        Some((name, port)) => (
            name,
            if port is Some {
                port
            } else {
                Some(22)
            },
        ),
        None => (host, Some(22)),
    }
}

/// What is read in a configured host: the text as it is, else with port 22 behind it.
pub open spec fn configured_host(host: Seq<char>) -> (Seq<char>, Option<u16>) {
    connection(
        host,
        if authority_parts(host) is Some {
            authority_parts(host)
        } else {
            authority_parts(host + ":22"@)
        },
    )
}

/// The host and port to connect to, given what was read in the configured host.
pub fn connection_of(host: &str, read: Option<(String, Option<u16>)>) -> (r: (String, Option<u16>))
    ensures
        (r.0@, r.1) == connection(host@, host_view(read)),
{
    match read {
        Some((name, port)) => match port {
            Some(port) => (name, Some(port)),
            None => (name, Some(22)),
        },
        None => (host.to_owned(), Some(22)),
    }
}

/// The host and port of a configured host.
pub fn parse_authority(host: &str) -> (r: (String, Option<u16>))
    ensures
        (r.0@, r.1) == configured_host(host@),
        plain_authority(host@) is Some ==> (r.0@, r.1) == connection(
            host@,
            plain_authority(host@),
        ),
{
    let read = match read_authority(host) {
        Some(read) => Some(read),
        None => {
            let mut with_port = host.to_owned();
            with_port.append(":22");
            read_authority(with_port.as_str())
        },
    };
    connection_of(host, read)
}

/// What `resolve_node_host` answers.
pub open spec fn node_host(
    remote: Seq<char>,
    cached: Option<Seq<char>>,
    configured: bool,
    first_node: Option<Seq<char>>,
) -> Result<(Seq<char>, Option<u16>), Seq<char>> {
    match cached {
        Some(host) => Ok(configured_host(host)),
        None => if !configured {
            Err("remote '"@ + remote + "' not found"@)
        } else {
            match first_node {
                Some(host) => Ok(configured_host(host)),
                None => Err("remote '"@ + remote + "' has no configured node endpoint"@),
            }
        },
    }
}

pub open spec fn host_outcome(r: Result<(String, Option<u16>), Error>) -> Result<
    (Seq<char>, Option<u16>),
    Seq<char>,
> {
    match r {
        Ok((host, port)) => Ok((host@, port)),
        Err(e) => Err(e@),
    }
}

/// The host of a node: the one that the cache knows for the node, else the remote's first endpoint.
pub fn resolve_node_host(
    remote: &str,
    cached: &Option<String>,
    configured: bool,
    first_node: &Option<String>,
) -> (r: Result<(String, Option<u16>), Error>)
    ensures
        host_outcome(r) == node_host(
            remote@,
            crate::text::opt_text(*cached),
            configured,
            crate::text::opt_text(*first_node),
        ),
{
    if let Some(host) = cached {
        return Ok(parse_authority(host.as_str()));
    }
    if !configured {
        return Err(Error::of3("remote '", remote, "' not found"));
    }
    match first_node {
        Some(host) => Ok(parse_authority(host.as_str())),
        None => Err(Error::of3("remote '", remote, "' has no configured node endpoint")),
    }
}

/// The host as it stands in a connection: an address with colons stands in brackets.
pub open spec fn connection_host(host: Seq<char>) -> Seq<char> {
    if occurs(host, ":"@) && !has_prefix(host, "["@) {
        "["@ + host + "]"@
    } else {
        host
    }
}

/// The host as it stands in a connection.
pub fn normalize_host_for_connection(host: &str) -> (r: String)
    ensures
        r@ == connection_host(host@),
{
    if contains(host, ":") && !starts_with(host, "[") {
        let mut bracketed = "[".to_owned();
        bracketed.append(host);
        bracketed.append("]");
        bracketed
    } else {
        host.to_owned()
    }
}

/// The port to give to `ssh`. Remote endpoints are configured with the API's ports, which are not
/// those of SSH.
pub open spec fn ssh_port(port: Option<u16>) -> Option<u16> {
    match port {
        Some(port) => if port == 8006 || port == 8007 {
            None
        } else {
            Some(port)
        },
        None => None,
    }
}

/// The port to give to `ssh`, where it is not the default one.
pub fn normalize_ssh_port(port: Option<u16>) -> (r: Option<u16>)
    ensures
        r == ssh_port(port),
{
    match port {
        Some(port) => if port == 8006 || port == 8007 {
            None
        } else {
            Some(port)
        },
        None => None,
    }
}

// ---------------------------------------------------------------------------------------------
// Arguments
// ---------------------------------------------------------------------------------------------

/// The options that every `ssh` and `scp` is called with.
pub open spec fn key_options(key: Seq<char>) -> Seq<Seq<char>> {
    seq!["-o"@, "BatchMode=yes"@, "-o"@, "StrictHostKeyChecking=accept-new"@, "-i"@, key]
}

/// The option that gives the port.
pub open spec fn port_option(flag: Seq<char>, port: Option<u16>) -> Seq<Seq<char>> {
    match ssh_port(port) {
        Some(port) => seq![flag, decimal(port as nat)],
        None => seq![],
    }
}

/// What `ssh` is called with to run a script on a node.
pub open spec fn ssh_arguments_of(
    host: Seq<char>,
    port: Option<u16>,
    user: Seq<char>,
    key: Seq<char>,
    script: Seq<char>,
) -> Seq<Seq<char>> {
    key_options(key) + port_option("-p"@, port) + seq![
        user + "@"@ + connection_host(host),
        "--"@,
        "/bin/bash"@,
        "-lc"@,
        escaped(script),
    ]
}

/// What `scp` is called with to copy the private key to the source node.
pub open spec fn scp_arguments_of(
    host: Seq<char>,
    port: Option<u16>,
    user: Seq<char>,
    key: Seq<char>,
) -> Seq<Seq<char>> {
    key_options(key) + port_option("-P"@, port) + seq![
        key,
        user + "@"@ + connection_host(host) + ":"@ + key,
    ]
}

fn key_arguments(key: &str, flag: &str, port: Option<u16>) -> (r: Vec<String>)
    ensures
        texts(r@) == key_options(key@) + port_option(flag@, port),
{
    let mut args: Vec<String> = Vec::new();
    args.push("-o".to_owned());
    args.push("BatchMode=yes".to_owned());
    args.push("-o".to_owned());
    args.push("StrictHostKeyChecking=accept-new".to_owned());
    args.push("-i".to_owned());
    args.push(key.to_owned());
    if let Some(port) = normalize_ssh_port(port) {
        args.push(flag.to_owned());
        args.push(to_decimal(port as u64));
    }
    assert(texts(args@) =~= key_options(key@) + port_option(flag@, port));
    args
}

fn address_of(user: &str, host: &str) -> (r: String)
    ensures
        r@ == user@ + "@"@ + connection_host(host@),
{
    let name = normalize_host_for_connection(host);
    let mut address = user.to_owned();
    address.append("@");
    address.append(name.as_str());
    address
}

/// What `ssh` is called with to run a script on a node.
pub fn ssh_arguments(
    host: &str,
    port: Option<u16>,
    user: &str,
    ssh_private_key: &str,
    script: &str,
) -> (r: Vec<String>)
    ensures
        texts(r@) == ssh_arguments_of(host@, port, user@, ssh_private_key@, script@),
{
    let mut args = key_arguments(ssh_private_key, "-p", port);
    let ghost options = texts(args@);
    args.push(address_of(user, host));
    args.push("--".to_owned());
    args.push("/bin/bash".to_owned());
    args.push("-lc".to_owned());
    args.push(shell_escape(script));
    assert(texts(args@) =~= options + seq![
        user@ + "@"@ + connection_host(host@),
        "--"@,
        "/bin/bash"@,
        "-lc"@,
        escaped(script@),
    ]);
    args
}

/// What `scp` is called with to copy the private key to the source node.
pub fn scp_arguments(host: &str, port: Option<u16>, user: &str, ssh_private_key: &str) -> (r: Vec<
    String,
>)
    ensures
        texts(r@) == scp_arguments_of(host@, port, user@, ssh_private_key@),
{
    let mut args = key_arguments(ssh_private_key, "-P", port);
    let ghost options = texts(args@);
    let mut destination = address_of(user, host);
    destination.append(":");
    destination.append(ssh_private_key);
    args.push(ssh_private_key.to_owned());
    args.push(destination);
    assert(texts(args@) =~= options + seq![
        ssh_private_key@,
        user@ + "@"@ + connection_host(host@) + ":"@ + ssh_private_key@,
    ]);
    args
}

// ---------------------------------------------------------------------------------------------
// The guest's configuration
// ---------------------------------------------------------------------------------------------

/// The command that prints a guest's configuration.
pub open spec fn guest_config_command_of(guest_type: GuestType, vmid: u32) -> Seq<char> {
    match guest_type {
        GuestType::Qemu => "qm config "@ + decimal(vmid as nat) + " --current"@,
        GuestType::Lxc => "pct config "@ + decimal(vmid as nat),
    }
}

/// The command that prints the configuration of the job's guest.
pub fn guest_config_command(job: &OffsiteReplicationJob) -> (r: String)
    ensures
        r@ == guest_config_command_of(job.guest_type, job.vmid),
{
    match job.guest_type {
        GuestType::Qemu => {
            let mut command = "qm config ".to_owned();
            push_decimal(&mut command, job.vmid as u64);
            command.append(" --current");
            command
        },
        GuestType::Lxc => {
            let mut command = "pct config ".to_owned();
            push_decimal(&mut command, job.vmid as u64);
            command
        },
    }
}

/// The guest's configuration, or why it could not be captured.
pub open spec fn captured_config(id: Seq<char>, success: bool, text: Seq<char>) -> Result<
    Seq<char>,
    Seq<char>,
> {
    if success {
        Ok(text)
    } else {
        Err(
            "failed to capture guest config for '"@ + id + "': "@ + (if is_blank(text) {
                "ssh command failed"@
            } else {
                text
            }),
        )
    }
}

/// The guest's configuration in the text that the command put out, or why it could not be captured.
pub fn config_of_text(job_id: &str, success: bool, text: String) -> (r: Result<String, Error>)
    ensures
        text_outcome(r) == captured_config(job_id@, success, text@),
{
    if success {
        return Ok(text);
    }
    let mut message = "failed to capture guest config for '".to_owned();
    message.append(job_id);
    message.append("': ");
    if blank(text.as_str()) {
        message.append("ssh command failed");
    } else {
        message.append(text.as_str());
    }
    Err(Error { message })
}

/// The guest's configuration in the output of the command, or why it could not be captured.
pub fn fetch_guest_config(job: &OffsiteReplicationJob, output: &Option<CommandOutput>) -> (r: Result<
    String,
    Error,
>)
    ensures
        text_outcome(r) == (match *output {
            None => Err(ssh_not_executed(job.source_remote@, job.source_node@)),
            Some(output) => captured_config(job.id@, output.success, output_text(output)),
        }),
{
    match output {
        None => Err(
            Error::of5(
                "failed to execute ssh against '",
                job.source_remote.as_str(),
                "/",
                job.source_node.as_str(),
                "'",
            ),
        ),
        Some(output) => {
            let text = merge_command_output(output);
            config_of_text(job.id.as_str(), output.success, text)
        },
    }
}

// ---------------------------------------------------------------------------------------------
// Laws
// ---------------------------------------------------------------------------------------------

/// A host that was put in brackets is not put in brackets again.
pub proof fn law_connection_host_is_settled(host: Seq<char>)
    ensures
        connection_host(connection_host(host)) == connection_host(host),
{
    if occurs(host, ":"@) && !has_prefix(host, "["@) {
        reveal_strlit("[");
        let bracketed = "["@ + host + "]"@;
        assert(bracketed.take(1) =~= "["@);
        assert(has_prefix(bracketed, "["@));
    }
}

/// A port that was made one for `ssh` stays so, and is never one of the API.
pub proof fn law_ssh_port_is_settled(port: Option<u16>)
    ensures
        ssh_port(ssh_port(port)) == ssh_port(port),
        ssh_port(port) != Some(8006u16),
        ssh_port(port) != Some(8007u16),
{
}

/// The shell on the node is handed exactly the script, as one word.
pub proof fn law_script_arrives_as_one_word(
    host: Seq<char>,
    port: Option<u16>,
    user: Seq<char>,
    key: Seq<char>,
    script: Seq<char>,
)
    ensures
        ssh_arguments_of(host, port, user, key, script).len() > 0,
        crate::shell::shell_word(ssh_arguments_of(host, port, user, key, script).last()) == Some(
            script,
        ),
{
    crate::shell::law_shell_reads_escaped_text_back(script);
    assert(ssh_arguments_of(host, port, user, key, script).last() == escaped(script));
}

/// Whatever is configured, a port to connect to is known.
pub proof fn law_configured_host_has_a_port(host: Seq<char>)
    ensures
        configured_host(host).1 is Some,
{
}

/// Both outputs are kept whole, the standard output first, and each starts a line of its own.
pub proof fn law_both_outputs_are_kept(first: Seq<char>, second: Seq<char>)
    ensures
        merged_texts(first, None) == first,
        merged_texts(Seq::empty(), Some(second)) == second,
        first.len() > 0 ==> merged_texts(first, Some(second)) == first + "\n"@ + second,
{
    reveal_strlit("\n");
    assert(Seq::<char>::empty() + second =~= second);
    assert(first.push('\n') + second =~= first + "\n"@ + second);
}

/// A script that succeeded is answered with its output, whatever that is. One that failed is answered
/// with its output as the error, or, where it put nothing out, with the node that it failed on.
pub proof fn law_failed_scripts_tell_why(remote: Seq<char>, node: Seq<char>, text: Seq<char>)
    ensures
        checked(remote, node, true, text) == Ok::<Seq<char>, Seq<char>>(text),
        !is_blank(text) ==> checked(remote, node, false, text) == Err::<Seq<char>, Seq<char>>(text),
        is_blank(text) ==> checked(remote, node, false, text) == Err::<Seq<char>, Seq<char>>(
            "ssh command against '"@ + remote + "/"@ + node + "' failed"@,
        ),
{
}

/// The host and the port that were read are those that are connected to; where no port was read it is
/// 22, and where nothing was read the host is the text itself.
pub proof fn law_what_was_read_is_connected_to(host: Seq<char>, name: Seq<char>, port: u16)
    ensures
        connection(host, Some((name, Some(port)))) == (name, Some(port)),
        connection(host, Some((name, None))) == (name, Some(22u16)),
        connection(host, None) == (host, Some(22u16)),
{
}

/// The cache is asked first; only then the remote's configuration counts, and a remote that is not
/// configured, or has no endpoint, is told by its name.
pub proof fn law_node_is_looked_up_in_order(
    remote: Seq<char>,
    cached: Option<Seq<char>>,
    configured: bool,
    first_node: Option<Seq<char>>,
)
    ensures
        cached matches Some(host) ==> node_host(remote, cached, configured, first_node) == Ok::<
            (Seq<char>, Option<u16>),
            Seq<char>,
        >(configured_host(host)),
        cached is None && !configured ==> node_host(remote, cached, configured, first_node) == Err::<
            (Seq<char>, Option<u16>),
            Seq<char>,
        >("remote '"@ + remote + "' not found"@),
        cached is None && configured ==> (first_node matches Some(host) ==> node_host(
            remote,
            cached,
            configured,
            first_node,
        ) == Ok::<(Seq<char>, Option<u16>), Seq<char>>(configured_host(host))),
        cached is None && configured && first_node is None ==> node_host(
            remote,
            cached,
            configured,
            first_node,
        ) == Err::<(Seq<char>, Option<u16>), Seq<char>>(
            "remote '"@ + remote + "' has no configured node endpoint"@,
        ),
{
}

/// An address with a colon is put in brackets, once; any other host stays as it is.
pub proof fn law_addresses_stand_in_brackets(host: Seq<char>)
    ensures
        !host.contains(':') ==> connection_host(host) == host,
        host.contains(':') && host[0] != '[' ==> connection_host(host) == "["@ + host + "]"@,
        host.len() > 0 && host[0] == '[' ==> connection_host(host) == host,
{
    reveal_strlit(":");
    reveal_strlit("[");
    if host.contains(':') {
        let i = choose|i: int| 0 <= i < host.len() && host[i] == ':';
        assert(host.subrange(i, i + 1) =~= ":"@);
        assert(crate::text::stands_at(host, ":"@, i));
    } else if occurs(host, ":"@) {
        let i = choose|i: int| crate::text::stands_at(host, ":"@, i);
        assert(host.subrange(i, i + 1)[0] == ':');
        assert(host[i] == ':');
    }
    if host.len() > 0 {
        assert(host.take(1)[0] == host[0]);
        if host[0] == '[' {
            assert(host.take(1) =~= "["@);
        }
    }
}

/// Every port is handed to `ssh` but those of the API.
pub proof fn law_other_ports_are_kept(port: u16)
    requires
        port != 8006,
        port != 8007,
    ensures
        ssh_port(Some(port)) == Some(port),
        ssh_port(None) is None,
{
}

/// `ssh` is called for the user on the host, with the key and the port, and runs the script in a
/// login shell there.
pub proof fn law_ssh_is_called_for_user_and_host(
    host: Seq<char>,
    port: u16,
    user: Seq<char>,
    key: Seq<char>,
    script: Seq<char>,
)
    requires
        port != 8006,
        port != 8007,
    ensures
        ssh_arguments_of(host, Some(port), user, key, script) == seq![
            "-o"@,
            "BatchMode=yes"@,
            "-o"@,
            "StrictHostKeyChecking=accept-new"@,
            "-i"@,
            key,
            "-p"@,
            decimal(port as nat),
            user + "@"@ + connection_host(host),
            "--"@,
            "/bin/bash"@,
            "-lc"@,
            escaped(script),
        ],
        ssh_arguments_of(host, None, user, key, script) == seq![
            "-o"@,
            "BatchMode=yes"@,
            "-o"@,
            "StrictHostKeyChecking=accept-new"@,
            "-i"@,
            key,
            user + "@"@ + connection_host(host),
            "--"@,
            "/bin/bash"@,
            "-lc"@,
            escaped(script),
        ],
{
    assert(ssh_arguments_of(host, Some(port), user, key, script) =~= seq![
        "-o"@,
        "BatchMode=yes"@,
        "-o"@,
        "StrictHostKeyChecking=accept-new"@,
        "-i"@,
        key,
        "-p"@,
        decimal(port as nat),
        user + "@"@ + connection_host(host),
        "--"@,
        "/bin/bash"@,
        "-lc"@,
        escaped(script),
    ]);
    assert(ssh_arguments_of(host, None, user, key, script) =~= seq![
        "-o"@,
        "BatchMode=yes"@,
        "-o"@,
        "StrictHostKeyChecking=accept-new"@,
        "-i"@,
        key,
        user + "@"@ + connection_host(host),
        "--"@,
        "/bin/bash"@,
        "-lc"@,
        escaped(script),
    ]);
}

/// `scp` is called with the port in its own spelling, and copies the key to the same path on the host.
pub proof fn law_scp_copies_the_key_to_its_path(
    host: Seq<char>,
    port: u16,
    user: Seq<char>,
    key: Seq<char>,
)
    requires
        port != 8006,
        port != 8007,
    ensures
        scp_arguments_of(host, Some(port), user, key) == seq![
            "-o"@,
            "BatchMode=yes"@,
            "-o"@,
            "StrictHostKeyChecking=accept-new"@,
            "-i"@,
            key,
            "-P"@,
            decimal(port as nat),
            key,
            user + "@"@ + connection_host(host) + ":"@ + key,
        ],
{
    assert(scp_arguments_of(host, Some(port), user, key) =~= seq![
        "-o"@,
        "BatchMode=yes"@,
        "-o"@,
        "StrictHostKeyChecking=accept-new"@,
        "-i"@,
        key,
        "-P"@,
        decimal(port as nat),
        key,
        user + "@"@ + connection_host(host) + ":"@ + key,
    ]);
}

/// The configuration is asked of the tool that manages the kind of guest, for the guest's own ID.
pub proof fn law_configuration_is_asked_by_kind_of_guest(vmid: u32)
    ensures
        guest_config_command_of(GuestType::Qemu, vmid) == "qm config "@ + decimal(vmid as nat)
            + " --current"@,
        guest_config_command_of(GuestType::Lxc, vmid) == "pct config "@ + decimal(vmid as nat),
{
}

/// The configuration is the command's output as it is; a failure is told with the job and with what
/// the command put out, if anything.
pub proof fn law_captured_configuration_is_the_output(id: Seq<char>, text: Seq<char>)
    ensures
        captured_config(id, true, text) == Ok::<Seq<char>, Seq<char>>(text),
        !is_blank(text) ==> captured_config(id, false, text) == Err::<Seq<char>, Seq<char>>(
            "failed to capture guest config for '"@ + id + "': "@ + text,
        ),
        is_blank(text) ==> captured_config(id, false, text) == Err::<Seq<char>, Seq<char>>(
            "failed to capture guest config for '"@ + id + "': "@ + "ssh command failed"@,
        ),
{
}

/// A command that put out on one side only is told with that; where both sides have something, the
/// standard output comes first.
pub proof fn law_output_is_told_from_both_sides(output: CommandOutput)
    ensures
        output.stdout@.len() == 0 && output.stderr@.len() == 0 ==> output_text(output).len() == 0,
        output.stderr@.len() == 0 && output.stdout@.len() > 0 ==> output_text(output) == lossy_text(
            output.stdout@,
        ),
        output.stdout@.len() == 0 && output.stderr@.len() > 0 ==> output_text(output) == lossy_text(
            output.stderr@,
        ),
        output.stdout@.len() > 0 && output.stderr@.len() > 0 && lossy_text(output.stdout@).len() > 0
            ==> output_text(output) == lossy_text(output.stdout@) + "\n"@ + lossy_text(
            output.stderr@,
        ),
{
    law_both_outputs_are_kept(lossy_text(output.stdout@), lossy_text(output.stderr@));
    law_both_outputs_are_kept(Seq::empty(), lossy_text(output.stderr@));
}

/// A plain host is read as it stands, without a port; with a colon and a port behind it, it is read
/// with that port.
pub proof fn law_plain_hosts_are_read_as_they_stand(host: Seq<char>, port: u16)
    requires
        is_plain_host(host),
    ensures
        plain_authority(host) == Some((host, None::<u16>)),
        plain_authority(host + ":"@ + decimal(port as nat)) == Some((host, Some(port))),
        connection(host, plain_authority(host)) == (host, Some(22u16)),
        connection(host, plain_authority(host + ":"@ + decimal(port as nat))) == (host, Some(port)),
{
    reveal_strlit(":");
    let text = host + ":"@ + decimal(port as nat);
    crate::number::lemma_decimal(port as nat);
    crate::number::law_decimal_reads_back(port as nat, u16::MAX as nat);
    assert(text[host.len() as int] == ':');
    assert(!is_plain_host(text)) by {
        if is_plain_host(text) {
            assert(is_alnum(text[host.len() as int]) || text[host.len() as int] == '-' || text[
                host.len() as int
            ] == '.');
        }
    }
    assert(!host.contains(':')) by {
        if host.contains(':') {
            let i = choose|i: int| 0 <= i < host.len() && host[i] == ':';
            assert(is_alnum(host[i]) || host[i] == '-' || host[i] == '.');
        }
    }
    crate::text::lemma_cut_first_of(host, ":"@, decimal(port as nat));
}

/// Where `ssh` could not be executed, the node that it was for is told.
pub proof fn law_unexecuted_ssh_is_told(remote: Seq<char>, node: Seq<char>)
    ensures
        ssh_not_executed(remote, node) == "failed to execute ssh against '"@ + remote + "/"@ + node
            + "'"@,
{
}

} // verus!
