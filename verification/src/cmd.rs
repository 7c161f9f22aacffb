//! The command builder: constructs the invocation descriptor for running
//! the sidecar for normal use. Pure data construction — the shell around
//! the library hands the descriptor to its process-execution collaborator.

use vstd::prelude::*;
use vstd::string::*;
use crate::strutil::is_ws;

verus! {

/// Index of the first whitespace character, or the length when none.
pub open spec fn first_ws(s: Seq<char>) -> nat
    decreases s.len(),
{
    if s.len() == 0 {
        0
    } else if is_ws(s[0]) {
        0
    } else {
        1 + first_ws(s.skip(1))
    }
}

/// The whitespace-delimited tokens of an argument string, in order, with
/// no empty tokens.
pub open spec fn split_ws(s: Seq<char>) -> Seq<Seq<char>>
    decreases s.len(),
{
    if s.len() == 0 {
        seq![]
    } else if is_ws(s[0]) {
        split_ws(s.skip(1))
    } else {
        let i = first_ws(s) as int;
        if i >= s.len() {
            seq![s]
        } else {
            seq![s.take(i)] + split_ws(s.skip(i + 1))
        }
    }
}

proof fn lemma_first_ws_at(s: Seq<char>, i: int)
    requires
        0 <= i <= s.len(),
        forall|j: int| 0 <= j < i ==> !is_ws(s[j]),
        i < s.len() ==> is_ws(s[i]),
    ensures
        first_ws(s) == i,
    decreases s.len(),
{
    if s.len() > 0 && i > 0 {
        lemma_first_ws_at(s.skip(1), i - 1);
    }
}

fn find_ws(s: &str) -> (r: usize)
    ensures
        r == first_ws(s@),
        r <= s@.len(),
{
    let len = s.unicode_len();
    let mut i: usize = 0;
    while i < len
        invariant
            0 <= i <= len,
            len == s@.len(),
            forall|j: int| 0 <= j < i ==> !is_ws(s@[j]),
        decreases len - i,
    {
        let c = s.get_char(i);
        if c == ' ' || c == '\t' || c == '\n' || c == '\r' {
            proof {
                lemma_first_ws_at(s@, i as int);
            }
            return i;
        }
        i = i + 1;
    }
    proof {
        lemma_first_ws_at(s@, len as int);
    }
    len
}

/// Splits a whitespace-delimited argument string into its tokens.
pub fn split_args(s: &str) -> (r: Vec<String>)
    ensures
        r.deep_view() == split_ws(s@),
    decreases s@.len(),
{
    let len = s.unicode_len();
    if len == 0 {
        let r: Vec<String> = Vec::new();
        proof {
            assert(r.deep_view() =~~= split_ws(s@));
        }
        return r;
    }
    let c = s.get_char(0);
    if c == ' ' || c == '\t' || c == '\n' || c == '\r' {
        let rest = s.substring_char(1, len);
        proof {
            assert(rest@ =~= s@.skip(1));
        }
        return split_args(rest);
    }
    let i = find_ws(s);
    if i == len {
        let mut r: Vec<String> = Vec::new();
        r.push(String::from_str(s));
        proof {
            assert(r.deep_view() =~~= split_ws(s@));
        }
        r
    } else {
        let head = s.substring_char(0, i);
        let tail = s.substring_char(i + 1, len);
        proof {
            assert(tail@ =~= s@.skip(i + 1));
        }
        let mut r = split_args(tail);
        r.insert(0, String::from_str(head));
        proof {
            assert(r.deep_view() =~~= seq![head@] + split_ws(tail@));
            assert(head@ == s@.take(i as int));
            assert(r.deep_view() =~~= split_ws(s@));
        }
        r
    }
}

/// An invocation descriptor for running the sidecar: the program, its
/// argument tokens, and the injected environment variables, in order.
pub struct CommandSpec {
    pub program: String,
    pub args: Vec<String>,
    pub env: Vec<(String, String)>,
}

/// Builds the invocation descriptor for normal sidecar use: splits the
/// whitespace-delimited argument string into tokens and injects the fixed
/// environment — the feature-flag toggle, the client-identity tag, and the
/// state-directory override pointing at the application's private data
/// directory. Execution is delegated outside the library.
pub fn create_command(args: &str, state_dir: &str) -> (r: CommandSpec)
    ensures
        r.program@ == "anyon-cli"@,
        r.args.deep_view() == split_ws(args@),
        r.env@.len() == 3,
        r.env@[0].0@ == "ANYON_EXPERIMENTAL_ICON_DISCOVERY"@ && r.env@[0].1@ == "true"@,
        r.env@[1].0@ == "ANYON_CLIENT"@ && r.env@[1].1@ == "desktop"@,
        r.env@[2].0@ == "XDG_STATE_HOME"@ && r.env@[2].1@ == state_dir@,
{
    let program = String::from_str("anyon-cli");
    let args_v = split_args(args);
    let mut env: Vec<(String, String)> = Vec::new();
    env.push(
        (String::from_str("ANYON_EXPERIMENTAL_ICON_DISCOVERY"), String::from_str("true")),
    );
    env.push((String::from_str("ANYON_CLIENT"), String::from_str("desktop")));
    env.push((String::from_str("XDG_STATE_HOME"), String::from_str(state_dir)));
    CommandSpec { program, args: args_v, env }
}

} // verus!
