//! Names that may reach a command line: datasets, snapshots, users, key paths, guest names, job IDs.
use crate::pieces::{lemma_pieces_chars, pieces, split};
use crate::shell::{escaped, law_escaping_of_text_without_quotes};
use crate::text::{
    alnum, alpha, chars_of, cut_last, is_alnum, is_alpha, lemma_cut_last, lemma_trimmed_already,
    rsplit_once, same, texts, trimmed,
};
use crate::types::{outcome, Error, OffsiteReplicationJob};
use vstd::prelude::*;

verus! {

/// A character of a dataset component or of a snapshot's name.
pub open spec fn is_zfs_char(c: char) -> bool {
    is_alnum(c) || c == '_' || c == '.' || c == ':' || c == '-'
}

/// A character of a user, of a guest's name or of a key path component.
pub open spec fn is_plain_char(c: char) -> bool {
    is_alnum(c) || c == '_' || c == '.' || c == '-'
}

/// A component: a letter or digit, then letters, digits and `_`, `.`, `:`, `-`.
pub open spec fn is_component(s: Seq<char>) -> bool {
    &&& s.len() > 0
    &&& is_alnum(s[0])
    &&& forall|i: int| 0 <= i < s.len() ==> is_zfs_char(s[i])
}

/// A dataset: components with a slash between them.
pub open spec fn is_dataset(s: Seq<char>) -> bool {
    forall|i: int| 0 <= i < pieces(s, '/').len() ==> is_component(pieces(s, '/')[i])
}

/// A snapshot: a dataset, `@` and a component.
pub open spec fn is_snapshot(s: Seq<char>) -> bool {
    match cut_last(s, "@"@) {
        Some((dataset, name)) => is_dataset(dataset) && is_component(name),
        None => false,
    }
}

/// The user without the `$` that may stand at its end.
pub open spec fn user_core(s: Seq<char>) -> Seq<char> {
    if s.len() > 0 && s.last() == '$' {
        s.drop_last()
    } else {
        s
    }
}

/// An SSH user: a letter or `_`, at most 31 plain characters more, and perhaps a `$`.
pub open spec fn is_ssh_user(s: Seq<char>) -> bool {
    let core = user_core(s);
    &&& 1 <= core.len() <= 32
    &&& is_alpha(core[0]) || core[0] == '_'
    &&& forall|i: int| 0 <= i < core.len() ==> is_plain_char(core[i])
}

/// A component of a key path: plain characters, at least one.
pub open spec fn is_path_component(s: Seq<char>) -> bool {
    s.len() > 0 && forall|i: int| 0 <= i < s.len() ==> is_plain_char(s[i])
}

/// The text has the shape of a key path: a slash, then path components with slashes between.
pub open spec fn is_path_shaped(s: Seq<char>) -> bool {
    &&& s.len() > 0
    &&& s[0] == '/'
    &&& forall|i: int|
        0 <= i < pieces(s.skip(1), '/').len() ==> is_path_component(pieces(s.skip(1), '/')[i])
}

/// A component of the path is `.` or `..`.
pub open spec fn has_dot_component(s: Seq<char>) -> bool {
    pieces(s.skip(1), '/').contains("."@) || pieces(s.skip(1), '/').contains(".."@)
}

/// A guest's name: a letter or digit, then at most 62 plain characters.
pub open spec fn is_guest_name(s: Seq<char>) -> bool {
    &&& 1 <= s.len() <= 63
    &&& is_alnum(s[0])
    &&& forall|i: int| 0 <= i < s.len() ==> is_plain_char(s[i])
}

/// A safe ID: a letter, digit or `_`, then plain characters.
pub open spec fn is_safe_id(s: Seq<char>) -> bool {
    &&& s.len() > 0
    &&& is_alnum(s[0]) || s[0] == '_'
    &&& forall|i: int| 0 <= i < s.len() ==> is_plain_char(s[i])
}

fn zfs_char(c: char) -> (r: bool)
    ensures
        r == is_zfs_char(c),
{
    alnum(c) || c == '_' || c == '.' || c == ':' || c == '-'
}

fn plain_char(c: char) -> (r: bool)
    ensures
        r == is_plain_char(c),
{
    alnum(c) || c == '_' || c == '.' || c == '-'
}

fn component(s: &str) -> (r: bool)
    ensures
        r == is_component(s@),
{
    let v = chars_of(s);
    if v.len() == 0 || !alnum(v[0]) {
        return false;
    }
    let mut i: usize = 0;
    while i < v.len()
        invariant
            i <= v.len(),
            v@ == s@,
            forall|k: int| 0 <= k < i ==> is_zfs_char(s@[k]),
        decreases v.len() - i,
    {
        if !zfs_char(v[i]) {
            assert(!is_zfs_char(s@[i as int]));
            return false;
        }
        i += 1;
    }
    true
}

/// Whether the characters `v[..to]` are plain.
fn plain_until(v: &Vec<char>, to: usize) -> (r: bool)
    requires
        to <= v.len(),
    ensures
        r == (forall|i: int| 0 <= i < to ==> is_plain_char(v@[i])),
{
    let mut i: usize = 0;
    while i < to
        invariant
            i <= to <= v.len(),
            forall|k: int| 0 <= k < i ==> is_plain_char(v@[k]),
        decreases to - i,
    {
        if !plain_char(v[i]) {
            return false;
        }
        i += 1;
    }
    true
}

fn dataset(s: &str) -> (r: bool)
    ensures
        r == is_dataset(s@),
{
    let parts = split(s, '/');
    let ghost all = pieces(s@, '/');
    let mut i: usize = 0;
    while i < parts.len()
        invariant
            i <= parts.len(),
            texts(parts@) == all,
            all == pieces(s@, '/'),
            forall|k: int| 0 <= k < i ==> is_component(all[k]),
        decreases parts.len() - i,
    {
        assert(all[i as int] == parts@[i as int]@);
        if !component(parts[i].as_str()) {
            return false;
        }
        i += 1;
    }
    assert(all.len() == parts.len());
    true
}

/// What `verify_offsite_target_dataset` answers.
pub open spec fn dataset_verdict(s: Seq<char>) -> Result<(), Seq<char>> {
    if is_dataset(s) {
        Ok(())
    } else {
        Err("invalid target dataset '"@ + s + "'"@)
    }
}

/// What `verify_offsite_ssh_user` answers.
pub open spec fn ssh_user_verdict(s: Seq<char>) -> Result<(), Seq<char>> {
    if is_ssh_user(s) {
        Ok(())
    } else {
        Err("invalid SSH user '"@ + s + "'"@)
    }
}

/// What `verify_offsite_ssh_key_path` answers.
pub open spec fn key_path_verdict(s: Seq<char>) -> Result<(), Seq<char>> {
    if !is_path_shaped(s) {
        Err("invalid SSH private key path '"@ + s + "'"@)
    } else if has_dot_component(s) {
        Err("SSH private key path must not contain '.' or '..' components"@)
    } else {
        Ok(())
    }
}

/// What `verify_offsite_snapshot` answers.
pub open spec fn snapshot_verdict(s: Seq<char>) -> Result<(), Seq<char>> {
    if is_snapshot(s) {
        Ok(())
    } else {
        Err("invalid recovery snapshot '"@ + s + "'"@)
    }
}

/// What `verify_offsite_recovered_name` answers.
pub open spec fn guest_name_verdict(s: Seq<char>) -> Result<(), Seq<char>> {
    if is_guest_name(s) {
        Ok(())
    } else {
        Err("invalid recovered guest name '"@ + s + "'"@)
    }
}

/// Accepts a target dataset. No component of one is `.` or `..`: each starts with a letter or digit.
pub fn verify_offsite_target_dataset(dataset_in: &str) -> (r: Result<(), Error>)
    ensures
        outcome(r) == dataset_verdict(dataset_in@),
{
    if dataset(dataset_in) {
        Ok(())
    } else {
        Err(Error::of3("invalid target dataset '", dataset_in, "'"))
    }
}

/// Accepts an SSH user.
pub fn verify_offsite_ssh_user(user: &str) -> (r: Result<(), Error>)
    ensures
        outcome(r) == ssh_user_verdict(user@),
{
    let v = chars_of(user);
    let n: usize = if v.len() > 0 && v[v.len() - 1] == '$' {
        v.len() - 1
    } else {
        v.len()
    };
    let ghost core = user_core(user@);
    assert(core =~= user@.take(n as int));
    if n >= 1 && n <= 32 && (alpha(v[0]) || v[0] == '_') && plain_until(&v, n) {
        Ok(())
    } else {
        proof {
            if forall|i: int| 0 <= i < core.len() ==> is_plain_char(core[i]) {
                assert forall|i: int| 0 <= i < n implies is_plain_char(v@[i]) by {
                    assert(core[i] == v@[i]);
                }
            }
        }
        Err(Error::of3("invalid SSH user '", user, "'"))
    }
}

/// Accepts the path of an SSH private key.
pub fn verify_offsite_ssh_key_path(path: &str) -> (r: Result<(), Error>)
    ensures
        outcome(r) == key_path_verdict(path@),
{
    let v = chars_of(path);
    if v.len() == 0 || v[0] != '/' {
        return Err(Error::of3("invalid SSH private key path '", path, "'"));
    }
    let rest = crate::text::text_of(&v, 1, v.len());
    assert(rest@ =~= path@.skip(1));
    let parts = split(rest.as_str(), '/');
    let ghost all = pieces(path@.skip(1), '/');
    let mut dots = false;
    let mut i: usize = 0;
    while i < parts.len()
        invariant
            i <= parts.len(),
            texts(parts@) == all,
            all == pieces(path@.skip(1), '/'),
            path@.len() > 0,
            path@[0] == '/',
            forall|k: int| 0 <= k < i ==> is_path_component(all[k]),
            dots == (exists|k: int| 0 <= k < i && (all[k] == "."@ || all[k] == ".."@)),
        decreases parts.len() - i,
    {
        assert(all[i as int] == parts@[i as int]@);
        let part = chars_of(parts[i].as_str());
        if part.len() == 0 || !plain_until(&part, part.len()) {
            assert(!is_path_component(all[i as int]));
            return Err(Error::of3("invalid SSH private key path '", path, "'"));
        }
        if same(parts[i].as_str(), ".") || same(parts[i].as_str(), "..") {
            dots = true;
        }
        i += 1;
    }
    assert(all.len() == parts.len());
    proof {
        if dots {
            let k = choose|k: int| 0 <= k < all.len() && (all[k] == "."@ || all[k] == ".."@);
            assert(all.contains(all[k]));
        } else {
            assert(!all.contains("."@) && !all.contains(".."@));
        }
    }
    if dots {
        Err(Error::new("SSH private key path must not contain '.' or '..' components"))
    } else {
        Ok(())
    }
}

/// Accepts a snapshot to recover from.
pub fn verify_offsite_snapshot(snapshot: &str) -> (r: Result<(), Error>)
    ensures
        outcome(r) == snapshot_verdict(snapshot@),
{
    match rsplit_once(snapshot, "@") {
        Some((before, name)) => {
            if dataset(before.as_str()) && component(name.as_str()) {
                return Ok(());
            }
        },
        None => {},
    }
    Err(Error::of3("invalid recovery snapshot '", snapshot, "'"))
}

/// Accepts the name of a recovered guest.
pub fn verify_offsite_recovered_name(name: &str) -> (r: Result<(), Error>)
    ensures
        outcome(r) == guest_name_verdict(name@),
{
    let v = chars_of(name);
    if v.len() >= 1 && v.len() <= 63 && alnum(v[0]) && plain_until(&v, v.len()) {
        Ok(())
    } else {
        Err(Error::of3("invalid recovered guest name '", name, "'"))
    }
}

/// Whether the text is a safe ID.
pub fn safe_id(id: &str) -> (r: bool)
    ensures
        r == is_safe_id(id@),
{
    let v = chars_of(id);
    v.len() > 0 && (alnum(v[0]) || v[0] == '_') && plain_until(&v, v.len())
}

/// What `validate_runtime_job` answers.
pub open spec fn runtime_verdict(job: OffsiteReplicationJob) -> Result<(), Seq<char>> {
    let id = job.id@;
    if !is_safe_id(id) {
        Err("job '"@ + id + "' is invalid: invalid job id"@)
    } else if dataset_verdict(job.target_dataset@) is Err {
        dataset_verdict(job.target_dataset@)
    } else if ssh_user_verdict(job.source_user@) is Err {
        ssh_user_verdict(job.source_user@)
    } else if ssh_user_verdict(job.target_user@) is Err {
        ssh_user_verdict(job.target_user@)
    } else if key_path_verdict(job.ssh_private_key@) is Err {
        key_path_verdict(job.ssh_private_key@)
    } else if job.source_user@ != "root"@ {
        Err(
            "job '"@ + id
                + "' is invalid: source_user must be 'root' for VMID-based replication (current pve-zsync backend requirement)"@,
        )
    } else if job.max_snapshots == 0 {
        Err("job '"@ + id + "' is invalid: max snapshots must be greater than zero"@)
    } else {
        Ok(())
    }
}

/// Checks a stored job before anything is run for it.
pub fn validate_runtime_job(job: &OffsiteReplicationJob) -> (r: Result<(), Error>)
    ensures
        outcome(r) == runtime_verdict(*job),
{
    if !safe_id(job.id.as_str()) {
        return Err(Error::of3("job '", job.id.as_str(), "' is invalid: invalid job id"));
    }
    if let Err(e) = verify_offsite_target_dataset(job.target_dataset.as_str()) {
        return Err(e);
    }
    if let Err(e) = verify_offsite_ssh_user(job.source_user.as_str()) {
        return Err(e);
    }
    if let Err(e) = verify_offsite_ssh_user(job.target_user.as_str()) {
        return Err(e);
    }
    if let Err(e) = verify_offsite_ssh_key_path(job.ssh_private_key.as_str()) {
        return Err(e);
    }
    if !same(job.source_user.as_str(), "root") {
        return Err(
            Error::of3(
                "job '",
                job.id.as_str(),
                "' is invalid: source_user must be 'root' for VMID-based replication (current pve-zsync backend requirement)",
            ),
        );
    }
    if job.max_snapshots == 0 {
        return Err(
            Error::of3(
                "job '",
                job.id.as_str(),
                "' is invalid: max snapshots must be greater than zero",
            ),
        );
    }
    Ok(())
}

// ---------------------------------------------------------------------------------------------
// Laws
// ---------------------------------------------------------------------------------------------

/// Every character of an accepted dataset is a letter, a digit or one of `_`, `.`, `:`, `-`, `/`.
pub proof fn law_dataset_characters(s: Seq<char>)
    requires
        dataset_verdict(s) is Ok,
    ensures
        s.len() > 0,
        is_alnum(s[0]),
        forall|i: int| 0 <= i < s.len() ==> is_zfs_char(#[trigger] s[i]) || s[i] == '/',
{
    let all = pieces(s, '/');
    assert forall|i: int, k: int| 0 <= i < all.len() && 0 <= k < all[i].len() implies is_zfs_char(
        #[trigger] all[i][k],
    ) by {
        assert(is_component(all[i]));
    }
    lemma_pieces_chars(s, '/', |c: char| is_zfs_char(c));
    lemma_first_component(s);
}

proof fn lemma_first_component(s: Seq<char>)
    ensures
        pieces(s, '/').len() > 0,
        pieces(s, '/')[0].len() <= s.len(),
        forall|k: int| 0 <= k < pieces(s, '/')[0].len() ==> #[trigger] pieces(s, '/')[0][k] == s[k],
        pieces(s, '/').len() == 1 ==> pieces(s, '/')[0].len() == s.len(),
    decreases s.len(),
{
    if s.len() > 0 {
        lemma_first_component(s.drop_last());
    }
}

/// Every component of an accepted dataset starts with a letter or digit, so none is `.` or `..`.
pub proof fn law_dataset_has_no_dot_components(s: Seq<char>)
    requires
        dataset_verdict(s) is Ok,
    ensures
        !pieces(s, '/').contains("."@),
        !pieces(s, '/').contains(".."@),
{
    reveal_strlit(".");
    reveal_strlit("..");
    let all = pieces(s, '/');
    if all.contains("."@) {
        let i = choose|i: int| 0 <= i < all.len() && all[i] == "."@;
        assert(is_component(all[i]));
    }
    if all.contains(".."@) {
        let i = choose|i: int| 0 <= i < all.len() && all[i] == ".."@;
        assert(is_component(all[i]));
    }
}

/// Every character of an accepted key path is plain or a slash, and the path is absolute.
pub proof fn law_key_path_characters(s: Seq<char>)
    requires
        key_path_verdict(s) is Ok,
    ensures
        s.len() > 1,
        s[0] == '/',
        forall|i: int| 0 <= i < s.len() ==> is_plain_char(#[trigger] s[i]) || s[i] == '/',
{
    let rest = s.skip(1);
    let all = pieces(rest, '/');
    assert forall|i: int, k: int| 0 <= i < all.len() && 0 <= k < all[i].len() implies is_plain_char(
        #[trigger] all[i][k],
    ) by {
        assert(is_path_component(all[i]));
    }
    lemma_pieces_chars(rest, '/', |c: char| is_plain_char(c));
    lemma_first_component(rest);
    assert(is_path_component(all[0]));
    assert forall|i: int| 0 <= i < s.len() implies is_plain_char(#[trigger] s[i]) || s[i]
        == '/' by {
        if i > 0 {
            assert(s[i] == rest[i - 1]);
        }
    }
}

/// An accepted snapshot is an accepted dataset, `@` and a name; its characters are those of a
/// dataset and the `@`, and there is no white space to trim from it.
pub proof fn law_snapshot_is_dataset_and_name(s: Seq<char>)
    requires
        snapshot_verdict(s) is Ok,
    ensures
        cut_last(s, "@"@) matches Some((dataset, name)) && dataset_verdict(dataset) is Ok
            && is_component(name) && s == dataset + "@"@ + name,
        forall|i: int|
            0 <= i < s.len() ==> is_zfs_char(#[trigger] s[i]) || s[i] == '/' || s[i] == '@',
        trimmed(s) == s,
{
    reveal_strlit("@");
    lemma_cut_last(s, "@"@);
    match cut_last(s, "@"@) {
        Some((dataset, name)) => {
            law_dataset_characters(dataset);
            assert forall|i: int| 0 <= i < s.len() implies is_zfs_char(#[trigger] s[i]) || s[i]
                == '/' || s[i] == '@' by {
                if i < dataset.len() {
                    assert(s[i] == dataset[i]);
                } else if i > dataset.len() {
                    assert(s[i] == name[i - dataset.len() - 1]);
                }
            }
            assert(s[0] == dataset[0]);
            assert(s.last() == name.last());
            lemma_trimmed_already(s);
        },
        None => {},
    }
}

/// Whatever is accepted has no quote in it: quoting it for a shell puts a quote at either end and
/// changes nothing else.
pub proof fn law_accepted_names_are_quoted_plainly(s: Seq<char>)
    requires
        dataset_verdict(s) is Ok || snapshot_verdict(s) is Ok || ssh_user_verdict(s) is Ok
            || key_path_verdict(s) is Ok || guest_name_verdict(s) is Ok || is_safe_id(s),
    ensures
        escaped(s) == "'"@ + s + "'"@,
{
    if dataset_verdict(s) is Ok {
        law_dataset_characters(s);
    } else if snapshot_verdict(s) is Ok {
        law_snapshot_is_dataset_and_name(s);
    } else if ssh_user_verdict(s) is Ok {
        let core = user_core(s);
        assert forall|i: int| 0 <= i < s.len() implies s[i] != '\'' by {
            if i < core.len() {
                assert(s[i] == core[i]);
            }
        }
    } else if key_path_verdict(s) is Ok {
        law_key_path_characters(s);
    }
    assert(!s.contains('\''));
    law_escaping_of_text_without_quotes(s);
}

/// A job that can be run names no one but `root` on the source and keeps at least one snapshot.
pub proof fn law_runnable_job(job: OffsiteReplicationJob)
    requires
        runtime_verdict(job) is Ok,
    ensures
        job.source_user@ == "root"@,
        job.max_snapshots > 0,
        is_safe_id(job.id@),
        is_dataset(job.target_dataset@),
{
}

/// Which characters names are made of.
pub proof fn law_characters_of_names(c: char)
    ensures
        ({
            let letter_or_digit = ('a' <= c && c <= 'z') || ('A' <= c && c <= 'Z') || ('0' <= c && c
                <= '9');
            &&& is_plain_char(c) <==> letter_or_digit || c == '_' || c == '.' || c == '-'
            &&& is_zfs_char(c) <==> letter_or_digit || c == '_' || c == '.' || c == '-' || c == ':'
        }),
{
}

/// A user of at most 32 plain characters, the first of which is a letter or `_`, is accepted, and so
/// is one with a `$` behind that. A longer one is not, and neither is one that starts otherwise.
pub proof fn law_users_that_are_accepted(s: Seq<char>)
    requires
        s.len() > 0,
        forall|i: int| 0 <= i < s.len() ==> is_plain_char(#[trigger] s[i]),
    ensures
        s.len() <= 32 && (is_alpha(s[0]) || s[0] == '_') ==> ssh_user_verdict(s) is Ok
            && ssh_user_verdict(s.push('$')) is Ok,
        s.len() > 32 || !(is_alpha(s[0]) || s[0] == '_') ==> ssh_user_verdict(s) == Err::<
            (),
            Seq<char>,
        >("invalid SSH user '"@ + s + "'"@) && ssh_user_verdict(s.push('$')) is Err,
{
    assert(is_plain_char(s[s.len() - 1]));
    assert(user_core(s) == s);
    assert(s.push('$').drop_last() =~= s);
}

/// A guest's name of at most 63 plain characters, the first of which is a letter or digit, is
/// accepted. A longer one is not, nor is an empty one, nor is one that starts otherwise.
pub proof fn law_guest_names_that_are_accepted(s: Seq<char>)
    requires
        forall|i: int| 0 <= i < s.len() ==> is_plain_char(#[trigger] s[i]),
    ensures
        guest_name_verdict(s) is Ok <==> 1 <= s.len() <= 63 && is_alnum(s[0]),
        guest_name_verdict(s) is Err ==> guest_name_verdict(s) == Err::<(), Seq<char>>(
            "invalid recovered guest name '"@ + s + "'"@,
        ),
{
}

/// An ID of plain characters is safe exactly where it starts with a letter, a digit or `_`, so it is
/// no hidden file and no option.
pub proof fn law_ids_that_are_safe(s: Seq<char>)
    requires
        s.len() > 0,
        forall|i: int| 0 <= i < s.len() ==> is_plain_char(#[trigger] s[i]),
    ensures
        is_safe_id(s) <==> s[0] != '.' && s[0] != '-',
{
}

proof fn lemma_one_piece(s: Seq<char>, c: char)
    requires
        !s.contains(c),
    ensures
        pieces(s, c) == seq![s],
    decreases s.len(),
{
    if s.len() == 0 {
        assert(s =~= Seq::<char>::empty());
    } else {
        let front = s.drop_last();
        assert forall|i: int| 0 <= i < front.len() implies front[i] != c by {
            assert(s.contains(s[i]));
        }
        lemma_one_piece(front, c);
        assert(s.contains(s.last()));
        assert(front.push(s.last()) =~= s);
        assert(pieces(s, c) =~= seq![s]);
    }
}

/// A component is an accepted dataset, and a dataset with a slash and a component behind it is one.
/// With anything else behind the slash it is not.
pub proof fn law_datasets_that_are_accepted(dataset: Seq<char>, name: Seq<char>)
    requires
        !name.contains('/'),
    ensures
        dataset_verdict(name) is Ok <==> is_component(name),
        dataset_verdict(dataset + "/"@ + name) is Ok <==> dataset_verdict(dataset) is Ok
            && is_component(name),
        !is_component(name) ==> dataset_verdict(name) == Err::<(), Seq<char>>(
            "invalid target dataset '"@ + name + "'"@,
        ),
{
    reveal_strlit("/");
    lemma_one_piece(name, '/');
    crate::pieces::lemma_one_more_piece(dataset, '/', name);
    let all = pieces(dataset, '/').push(name);
    let alone = seq![name];
    assert(dataset + "/"@ + name =~= dataset.push('/') + name);
    assert(alone[0] == name);
    if is_dataset(dataset + "/"@ + name) {
        assert(is_component(all[all.len() - 1]));
        assert forall|i: int| 0 <= i < pieces(dataset, '/').len() implies is_component(
            pieces(dataset, '/')[i],
        ) by {
            assert(all[i] == pieces(dataset, '/')[i]);
            assert(is_component(all[i]));
        }
    }
    if is_dataset(name) {
        assert(is_component(pieces(name, '/')[0]));
    }
}

/// An accepted dataset, `@` and a component make an accepted snapshot; anything else behind the last
/// `@` does not.
pub proof fn law_snapshots_that_are_accepted(dataset: Seq<char>, name: Seq<char>)
    requires
        !name.contains('@'),
    ensures
        snapshot_verdict(dataset + "@"@ + name) is Ok <==> dataset_verdict(dataset) is Ok
            && is_component(name),
        snapshot_verdict(dataset + "@"@ + name) is Err ==> snapshot_verdict(dataset + "@"@ + name)
            == Err::<(), Seq<char>>(
            "invalid recovery snapshot '"@ + (dataset + "@"@ + name) + "'"@,
        ),
{
    crate::snapshots::lemma_snapshot_is_cut(dataset, name);
}

/// A key path is accepted exactly where it is a slash and then path components with slashes between
/// them, none of which is `.` or `..`.
pub proof fn law_key_paths_that_are_accepted(path: Seq<char>, name: Seq<char>)
    requires
        !name.contains('/'),
    ensures
        ({
            let good = is_path_component(name) && name != "."@ && name != ".."@;
            &&& key_path_verdict("/"@ + name) is Ok <==> good
            &&& path.len() > 0 && path[0] == '/' ==> (key_path_verdict(path + "/"@ + name) is Ok
                <==> key_path_verdict(path) is Ok && good)
            &&& path.len() > 0 && path[0] != '/' ==> key_path_verdict(path) == Err::<
                (),
                Seq<char>,
            >("invalid SSH private key path '"@ + path + "'"@)
        }),
{
    reveal_strlit("/");
    let good = is_path_component(name) && name != "."@ && name != ".."@;
    let short = "/"@ + name;
    assert(short.skip(1) =~= name);
    lemma_one_piece(name, '/');
    let alone = seq![name];
    assert(alone[0] == name);
    assert(alone.contains(name));
    assert(is_path_shaped(short) <==> is_path_component(name)) by {
        if is_path_shaped(short) {
            assert(is_path_component(pieces(short.skip(1), '/')[0]));
        }
    }
    assert(has_dot_component(short) <==> name == "."@ || name == ".."@);
    if path.len() > 0 && path[0] == '/' {
        let long = path + "/"@ + name;
        let rest = path.skip(1);
        let before = pieces(rest, '/');
        crate::pieces::lemma_one_more_piece(rest, '/', name);
        assert(long.skip(1) =~= rest.push('/') + name);
        let all = before.push(name);
        assert(all[before.len() as int] == name);
        assert(is_path_shaped(long) <==> is_path_shaped(path) && is_path_component(name)) by {
            if is_path_shaped(long) {
                assert(is_path_component(all[before.len() as int]));
                assert forall|i: int| 0 <= i < before.len() implies is_path_component(
                    before[i],
                ) by {
                    assert(is_path_component(all[i]));
                }
            }
        }
        assert forall|x: Seq<char>| #[trigger] all.contains(x) <==> before.contains(x) || x
            == name by {
            if before.contains(x) {
                let i = choose|i: int| 0 <= i < before.len() && before[i] == x;
                assert(all[i] == x);
            }
            if all.contains(x) {
                let i = choose|i: int| 0 <= i < all.len() && all[i] == x;
                if i < before.len() {
                    assert(before[i] == x);
                }
            }
        }
        assert(all.contains("."@) <==> before.contains("."@) || "."@ == name);
        assert(all.contains(".."@) <==> before.contains(".."@) || ".."@ == name);
    }
}

/// A job is run exactly where its ID is a safe one, its dataset, users and key path are accepted, it
/// logs in on the source as `root`, and it keeps at least one snapshot.
pub proof fn law_jobs_that_are_run(job: OffsiteReplicationJob)
    ensures
        runtime_verdict(job) is Ok <==> (is_safe_id(job.id@) && dataset_verdict(
            job.target_dataset@,
        ) is Ok && ssh_user_verdict(job.source_user@) is Ok && ssh_user_verdict(
            job.target_user@,
        ) is Ok && key_path_verdict(job.ssh_private_key@) is Ok && job.source_user@ == "root"@
            && job.max_snapshots >= 1),
        !is_safe_id(job.id@) ==> runtime_verdict(job) == Err::<(), Seq<char>>(
            "job '"@ + job.id@ + "' is invalid: invalid job id"@,
        ),
{
}

} // verus!
