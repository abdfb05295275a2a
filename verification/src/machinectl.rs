//! The management command line: what is refused before a node is asked, and
//! what is printed of its answers.

use crate::apiserver::service::{ResourceEntry, VersionResponse};
use crate::text::join_strings;
use vstd::prelude::*;
use vstd::string::*;

verus! {

/// What a node is asked to do.
#[derive(Debug, PartialEq, Eq)]
pub enum Command {
    /// Say which version it runs.
    Version,
    /// List the resources of a type in a namespace.
    Get { resource_type: String, namespace: String },
    /// Reboot.
    Reboot,
    /// Power off.
    Shutdown,
    /// Wipe its state and reboot to provision itself anew.
    Reset { yes: bool },
}

/// A command that is not sent: what is shown, and the exit status.
#[derive(Debug, PartialEq, Eq)]
pub struct Refusal {
    pub message: &'static str,
    pub status: i32,
}

/// Refuses a reset that was not confirmed.
pub fn refusal(command: &Command) -> (r: Option<Refusal>)
    ensures
        match r {
            Some(no) => *command == (Command::Reset { yes: false }) && no.status == 2
                && no.message@ == "reset wipes STATE and EPHEMERAL; pass --yes to confirm"@,
            None => *command != (Command::Reset { yes: false }),
        },
{
    match command {
        Command::Reset { yes } => {
            if *yes {
                None
            } else {
                Some(
                    Refusal {
                        message: "reset wipes STATE and EPHEMERAL; pass --yes to confirm",
                        status: 2,
                    },
                )
            }
        },
        _ => None,
    }
}

/// What is printed once a node has taken a command that asks for an action.
pub fn taken(command: &Command) -> (r: Option<&'static str>)
    ensures
        match r {
            Some(text) => match *command {
                Command::Reboot => text@ == "reboot requested"@,
                Command::Shutdown => text@ == "shutdown requested"@,
                Command::Reset { .. } => text@ == "reset requested"@,
                _ => false,
            },
            None => *command is Version || *command is Get,
        },
{
    match command {
        Command::Reboot => Some("reboot requested"),
        Command::Shutdown => Some("shutdown requested"),
        Command::Reset { .. } => Some("reset requested"),
        _ => None,
    }
}

/// What is printed of a version.
pub fn version_line(v: &VersionResponse) -> (r: String)
    ensures
        r@ == v.version@,
{
    v.version.clone()
}

/// Fields as they are printed: each as `key=value`.
pub open spec fn field_texts(fields: Seq<(Seq<char>, Seq<char>)>) -> Seq<Seq<char>> {
    Seq::new(fields.len(), |i: int| fields[i].0 + "="@ + fields[i].1)
}

/// A listed resource as it is printed: its id, a tab, and its fields with a
/// space between them.
pub open spec fn line_of(e: crate::apiserver::service::EntryView) -> Seq<char> {
    e.id + "\t"@ + crate::text::join(field_texts(e.fields), " "@)
}

/// What is printed of a listed resource.
pub fn entry_line(e: &ResourceEntry) -> (r: String)
    ensures
        r@ == line_of(e@),
{
    let ghost all = field_texts(e@.fields);
    let mut parts: Vec<String> = Vec::new();
    let mut i: usize = 0;
    while i < e.fields.len()
        invariant
            i <= e.fields@.len(),
            all == field_texts(e@.fields),
            crate::text::texts(parts@) == all.take(i as int),
        decreases e.fields@.len() - i,
    {
        let ghost before = parts@;
        let mut text = e.fields[i].0.clone();
        text.append("=");
        text.append(e.fields[i].1.as_str());
        parts.push(text);
        i += 1;
        assert(crate::text::texts(parts@) =~= crate::text::texts(before).push(all[i - 1]));
        assert(crate::text::texts(parts@) =~= all.take(i as int));
    }
    assert(all.take(i as int) =~= all);
    let fields = join_strings(&parts, " ");
    let mut line = e.id.clone();
    line.append("\t");
    line.append(fields.as_str());
    line
}

/// What is printed of a resource can be read back: its id stands before the tab,
/// and behind it stand its fields, all of them and in their order, each with its
/// key and its value.
pub proof fn a_printed_line_is_read_back(e: crate::apiserver::service::EntryView)
    requires
        !e.id.contains('\t'),
        e.fields.len() > 0,
        forall|i: int|
            0 <= i < e.fields.len() ==> !(#[trigger] e.fields[i]).0.contains(' ')
                && !e.fields[i].1.contains(' '),
    ensures
        crate::text::until(line_of(e), '\t') == e.id.len(),
        line_of(e).take(e.id.len() as int) == e.id,
        ({
            let shown = crate::text::split(line_of(e).skip(e.id.len() as int + 1), ' ');
            &&& shown.len() == e.fields.len()
            &&& forall|i: int|
                0 <= i < shown.len() ==> #[trigger] shown[i] == e.fields[i].0 + "="@
                    + e.fields[i].1
        }),
{
    reveal_strlit("\t");
    reveal_strlit(" ");
    reveal_strlit("=");
    let line = line_of(e);
    let n = e.id.len() as int;
    assert(line[n] == '\t');
    assert forall|i: int| 0 <= i < n implies line[i] != '\t' by {
        assert(line[i] == e.id[i]);
        assert(e.id.contains(e.id[i]));
    }
    crate::text::lemma_until(line, '\t', n as nat);
    assert(line.take(n) =~= e.id);
    let all = field_texts(e.fields);
    assert(line.skip(n + 1) =~= crate::text::join(all, " "@));
    assert(" "@ =~= seq![' ']);
    assert forall|i: int| 0 <= i < all.len() implies !(#[trigger] all[i]).contains(' ') by {
        let (k, v) = e.fields[i];
        assert(all[i] == k + "="@ + v);
        assert forall|x: int| 0 <= x < all[i].len() implies all[i][x] != ' ' by {
            if x < k.len() {
                assert(all[i][x] == k[x]);
                assert(k.contains(k[x]));
            } else if x > k.len() {
                assert(all[i][x] == v[x - k.len() - 1]);
                assert(v.contains(v[x - k.len() - 1]));
            }
        }
    }
    crate::text::what_was_joined_is_split_again(all, ' ');
}

} // verus!
