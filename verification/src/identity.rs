//! The identity of a virtual machine, read off the command line of the
//! hypervisor process that runs it.
//!
//! A hypervisor is started with, among many others, the arguments `-id`
//! followed by the machine's number and `-name` followed by its name, which
//! may carry settings after a comma. The identity is `<id>-<name>`, the name
//! cut at its first comma. A command line that does not yield both parts
//! gives a fixed fallback identity.
//!
//! The command line is read from left to right. An argument that follows a
//! flag is that flag's value and nothing else: it is not itself looked at as a
//! flag. Where a flag occurs more than once, its last value counts. A flag
//! that ends the command line has no value and changes nothing.

use vstd::prelude::*;
use vstd::string::*;
use crate::exporter::ProxmoxExporter;
use crate::text::{before, before_separator, lemma_before_separator_shape};

verus! {

/// The argument that announces the machine's number.
pub open spec fn id_flag() -> Seq<char> {
    "-id"@
}

/// The argument that announces the machine's name.
pub open spec fn name_flag() -> Seq<char> {
    "-name"@
}

/// The character after which a name carries settings.
pub open spec fn name_separator() -> char {
    ','
}

/// The identity of a machine whose command line does not tell.
pub open spec fn fallback_identity() -> Seq<char> {
    "unknown-vm"@
}

/// Whether `token` is one of the two flags.
pub open spec fn is_flag(token: Seq<char>) -> bool {
    token == id_flag() || token == name_flag()
}

/// Whether the argument at `at` is looked at as a flag, that is, does not
/// stand behind an argument that was itself taken as a flag.
pub open spec fn reads_as_flag(tokens: Seq<Seq<char>>, at: int) -> bool
    decreases at,
{
    if at <= 0 {
        true
    } else {
        !(reads_as_flag(tokens, at - 1) && is_flag(tokens[at - 1]))
    }
}

/// Whether the argument at `at` is `flag`, taken as a flag, with a value behind it.
pub open spec fn introduces(tokens: Seq<Seq<char>>, flag: Seq<char>, at: int) -> bool {
    &&& 0 <= at
    &&& at + 1 < tokens.len()
    &&& tokens[at] == flag
    &&& reads_as_flag(tokens, at)
}

/// The value that the last `flag` among the first `len` arguments introduces
/// there; empty where none does.
pub open spec fn value_within(tokens: Seq<Seq<char>>, flag: Seq<char>, len: int) -> Seq<char>
    decreases len,
{
    if len < 2 {
        Seq::empty()
    } else if tokens[len - 2] == flag && reads_as_flag(tokens, len - 2) {
        tokens[len - 1]
    } else {
        value_within(tokens, flag, len - 1)
    }
}

/// The value of `flag` on the command line `tokens`; empty where it has none.
pub open spec fn flag_value(tokens: Seq<Seq<char>>, flag: Seq<char>) -> Seq<char> {
    value_within(tokens, flag, tokens.len() as int)
}

/// The identity of the machine that the command line `tokens` starts.
pub open spec fn vm_identity(tokens: Seq<Seq<char>>) -> Seq<char> {
    let id = flag_value(tokens, id_flag());
    let name = before_separator(flag_value(tokens, name_flag()), name_separator());
    if id.len() > 0 && name.len() > 0 {
        id + "-"@ + name
    } else {
        fallback_identity()
    }
}

/// Among the first `len` arguments, the value of `flag` is the one behind its
/// last occurrence that is taken as a flag.
proof fn lemma_value_within_last(tokens: Seq<Seq<char>>, flag: Seq<char>, len: int, at: int)
    requires
        0 <= at,
        at + 1 < len,
        tokens[at] == flag,
        reads_as_flag(tokens, at),
        forall|later: int|
            at < later && later + 1 < len ==> !(tokens[later] == flag && #[trigger] reads_as_flag(
                tokens,
                later,
            )),
    ensures
        value_within(tokens, flag, len) == tokens[at + 1],
    decreases len,
{
    if at + 2 < len {
        lemma_value_within_last(tokens, flag, len - 1, at);
    }
}

/// Among the first `len` arguments, a `flag` that is nowhere taken as a flag
/// has no value.
proof fn lemma_value_within_none(tokens: Seq<Seq<char>>, flag: Seq<char>, len: int)
    requires
        forall|at: int|
            0 <= at && at + 1 < len ==> !(tokens[at] == flag && #[trigger] reads_as_flag(
                tokens,
                at,
            )),
    ensures
        value_within(tokens, flag, len) == Seq::<char>::empty(),
    decreases len,
{
    if len >= 2 {
        lemma_value_within_none(tokens, flag, len - 1);
    }
}

/// Where a flag occurs more than once, the value behind its last occurrence counts.
pub proof fn lemma_flag_value_is_last(tokens: Seq<Seq<char>>, flag: Seq<char>, at: int)
    requires
        introduces(tokens, flag, at),
        forall|later: int| at < later ==> !introduces(tokens, flag, later),
    ensures
        flag_value(tokens, flag) == tokens[at + 1],
{
    assert forall|later: int| at < later && later + 1 < tokens.len() implies !(tokens[later]
        == flag && #[trigger] reads_as_flag(tokens, later)) by {
        assert(!introduces(tokens, flag, later));
    }
    lemma_value_within_last(tokens, flag, tokens.len() as int, at);
}

/// A flag that introduces no value has the empty value.
pub proof fn lemma_flag_value_absent(tokens: Seq<Seq<char>>, flag: Seq<char>)
    requires
        forall|at: int| !introduces(tokens, flag, at),
    ensures
        flag_value(tokens, flag) == Seq::<char>::empty(),
{
    assert forall|at: int| 0 <= at && at + 1 < tokens.len() implies !(tokens[at] == flag
        && #[trigger] reads_as_flag(tokens, at)) by {
        assert(!introduces(tokens, flag, at));
    }
    lemma_value_within_none(tokens, flag, tokens.len() as int);
}

/// A command line on which `-id` introduces a number and `-name` a name
/// gives the number, a hyphen, and the name up to its first comma, as long as
/// neither the number nor what is left of the name is empty.
pub proof fn lemma_identity_from_flags(tokens: Seq<Seq<char>>, id_at: int, name_at: int)
    requires
        introduces(tokens, id_flag(), id_at),
        forall|later: int| id_at < later ==> !introduces(tokens, id_flag(), later),
        introduces(tokens, name_flag(), name_at),
        forall|later: int| name_at < later ==> !introduces(tokens, name_flag(), later),
        tokens[id_at + 1].len() > 0,
        before_separator(tokens[name_at + 1], name_separator()).len() > 0,
    ensures
        vm_identity(tokens) == tokens[id_at + 1] + "-"@ + before_separator(
            tokens[name_at + 1],
            name_separator(),
        ),
{
    lemma_flag_value_is_last(tokens, id_flag(), id_at);
    lemma_flag_value_is_last(tokens, name_flag(), name_at);
}

/// A command line on which `-id` introduces no number, or `-name` no name,
/// gives the fallback identity.
pub proof fn lemma_identity_fallback(tokens: Seq<Seq<char>>)
    requires
        (forall|at: int| !introduces(tokens, id_flag(), at)) || (forall|at: int|
            !introduces(tokens, name_flag(), at)),
    ensures
        vm_identity(tokens) == fallback_identity(),
{
    if forall|at: int| !introduces(tokens, id_flag(), at) {
        lemma_flag_value_absent(tokens, id_flag());
    } else {
        lemma_flag_value_absent(tokens, name_flag());
        lemma_before_separator_shape(Seq::<char>::empty(), name_separator());
    }
}

/// An identity is never empty, and never one half of a pair: it is the
/// fallback, or a number and a name, both present, around a hyphen.
pub proof fn lemma_identity_is_whole(tokens: Seq<Seq<char>>)
    ensures
        vm_identity(tokens).len() > 0,
        vm_identity(tokens) == fallback_identity() || exists|id: Seq<char>, name: Seq<char>|
            id.len() > 0 && name.len() > 0 && !name.contains(name_separator())
                && #[trigger] (id + "-"@ + name) == vm_identity(tokens),
{
    let id = flag_value(tokens, id_flag());
    let raw = flag_value(tokens, name_flag());
    let name = before_separator(raw, name_separator());
    reveal_strlit("unknown-vm");
    if id.len() > 0 && name.len() > 0 {
        lemma_before_separator_shape(raw, name_separator());
    }
}

/// The two flags are not the same argument.
proof fn lemma_flags_differ()
    ensures
        id_flag() != name_flag(),
{
    reveal_strlit("-id");
    reveal_strlit("-name");
    assert(id_flag().len() != name_flag().len());
}

/// What the scan of a command line waits for.
enum Awaiting {
    /// Any argument; a flag among them changes what comes next.
    Flag,
    /// The machine's number.
    Id,
    /// The machine's name.
    Name,
}

impl ProxmoxExporter {
    /// The identity of the virtual machine that a hypervisor with the command
    /// line `cmdline` runs.
    pub fn get_vm_name_from_cmdline(cmdline: &[String]) -> (identity: String)
        ensures
            identity@ == vm_identity(cmdline.deep_view()),
    {
        let id_flag_text = String::from_str("-id");
        let name_flag_text = String::from_str("-name");
        let ghost tokens = cmdline.deep_view();
        let mut vmid = String::new();
        let mut name = String::new();
        let mut awaiting = Awaiting::Flag;
        let mut at: usize = 0;
        while at < cmdline.len()
            invariant
                at <= cmdline.len(),
                tokens == cmdline.deep_view(),
                id_flag_text@ == id_flag(),
                name_flag_text@ == name_flag(),
                vmid@ == value_within(tokens, id_flag(), at as int),
                name@ == value_within(tokens, name_flag(), at as int),
                awaiting is Flag <==> reads_as_flag(tokens, at as int),
                awaiting is Id ==> at >= 1 && tokens[at - 1] == id_flag() && reads_as_flag(
                    tokens,
                    at - 1,
                ),
                awaiting is Name ==> at >= 1 && tokens[at - 1] == name_flag() && reads_as_flag(
                    tokens,
                    at - 1,
                ),
            decreases cmdline.len() - at,
        {
            let token = &cmdline[at];
            proof {
                lemma_flags_differ();
            }
            match awaiting {
                Awaiting::Flag => {
                    if *token == id_flag_text {
                        awaiting = Awaiting::Id;
                    } else if *token == name_flag_text {
                        awaiting = Awaiting::Name;
                    }
                },
                Awaiting::Id => {
                    vmid = token.clone();
                    awaiting = Awaiting::Flag;
                },
                Awaiting::Name => {
                    name = token.clone();
                    awaiting = Awaiting::Flag;
                },
            }
            at += 1;
        }
        let clean_name = before(name.as_str(), ',');
        if !vmid.as_str().is_empty() && !clean_name.is_empty() {
            let mut identity = vmid;
            identity.append("-");
            identity.append(clean_name);
            identity
        } else {
            String::from_str("unknown-vm")
        }
    }
}

} // verus!
