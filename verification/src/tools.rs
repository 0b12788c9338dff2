//! Command line tools on this host.
use crate::text::{cat2, no_texts, opt_text, push_text, texts, trim, trimmed};
use vstd::prelude::*;

verus! {

/// Where a tool usually is, in the order in which these places are tried.
pub open spec fn usual_places(tool: Seq<char>) -> Seq<Seq<char>> {
    seq!["/usr/local/bin/"@ + tool, "/opt/homebrew/bin/"@ + tool, "/usr/bin/"@ + tool]
}

/// Where a tool usually is, in the order in which these places are tried.
pub fn tool_candidates(tool: &str) -> (r: Vec<String>)
    ensures
        texts(r@) == usual_places(tool@),
{
    let local = cat2("/usr/local/bin/", tool);
    let brew = cat2("/opt/homebrew/bin/", tool);
    let system = cat2("/usr/bin/", tool);
    let mut v = no_texts();
    push_text(&mut v, local.as_str());
    push_text(&mut v, brew.as_str());
    push_text(&mut v, system.as_str());
    assert(texts(v@) =~= usual_places(tool@));
    v
}

/// What `which` found, from how it ended and what it printed.
pub fn which_answer(success: bool, stdout: &str) -> (r: Option<String>)
    ensures
        opt_text(r) == (if success && trimmed(stdout@).len() > 0 {
            Some(trimmed(stdout@))
        } else {
            None
        }),
{
    let path = trim(stdout);
    if success && !path.is_empty() {
        Some(path.to_owned())
    } else {
        None
    }
}

// ---------------------------------------------------------------------------
// Laws
// ---------------------------------------------------------------------------

/// A tool is looked for in three places, the user's own programs first.
pub proof fn law_tools_are_looked_for_in_three_places(tool: &str, r: Vec<String>)
    requires
        call_ensures(tool_candidates, (tool,), r),
    ensures
        r@.len() == 3,
        r@[0]@ == "/usr/local/bin/"@ + tool@,
        r@[1]@ == "/opt/homebrew/bin/"@ + tool@,
        r@[2]@ == "/usr/bin/"@ + tool@,
{
    let t = texts(r@);
    assert(t.len() == r@.len());
    assert(t[0] == r@[0]@);
    assert(t[1] == r@[1]@);
    assert(t[2] == r@[2]@);
}

} // verus!
