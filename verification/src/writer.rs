//! The pinned manifest as it is written out.

use crate::text::pair_views;
use vstd::prelude::*;
use vstd::string::*;

verus! {

/// The line of the manifest that pins `package` to `version`.
pub open spec fn requirement_line(package: Seq<char>, version: Seq<char>) -> Seq<char> {
    package + "=="@ + version + "\n"@
}

/// The text of the manifest that pins `packages`: one line for each pair of
/// package and version, in their order.
pub open spec fn requirements_text(packages: Seq<(Seq<char>, Seq<char>)>) -> Seq<char>
    decreases packages.len(),
{
    if packages.len() == 0 {
        Seq::empty()
    } else {
        requirements_text(packages.drop_last()) + requirement_line(
            packages.last().0,
            packages.last().1,
        )
    }
}

/// The text of the manifest that pins `packages`.
pub fn render_requirements(packages: &Vec<(String, String)>) -> (text: String)
    ensures
        text@ == requirements_text(pair_views(packages@)),
{
    let ghost pairs = pair_views(packages@);
    let mut text = String::new();
    let mut i: usize = 0;
    while i < packages.len()
        invariant
            i <= packages.len(),
            pairs == pair_views(packages@),
            text@ == requirements_text(pairs.take(i as int)),
        decreases packages.len() - i,
    {
        assert(pairs.take(i + 1).drop_last() == pairs.take(i as int));
        text.append(packages[i].0.as_str());
        text.append("==");
        text.append(packages[i].1.as_str());
        text.append("\n");
        i += 1;
    }
    assert(pairs.take(packages.len() as int) == pairs);
    text
}

} // verus!
