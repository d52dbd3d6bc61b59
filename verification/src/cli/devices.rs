//! The device listing, and which serial node may be asked what it is.
//!
//! To ask a serial node is to write to it, so it is done only to the node that was given or to the
//! serial half of the pair that discovery selects.

use vstd::prelude::*;

use crate::discovery::{self, Constraints, DiscoveryError, Pair};
use crate::path::{self, NodePath};
use crate::text;

verus! {

/// The serial nodes that may be asked.
pub open spec fn targets(
    selected: Result<discovery::nodes::PairView, discovery::ErrorView>,
    c: discovery::ConstraintsView,
) -> Seq<path::Spelled> {
    match (c.serial, selected) {
        (Some(p), _) => seq![p],
        (None, Ok(pair)) => seq![pair.serial.dev],
        (None, Err(_)) => seq![],
    }
}

/// The serial nodes that may be asked: the one that was given, or else that of the selected pair.
/// Where discovery selects none, none is asked.
pub fn probe_targets(selected: &Result<Pair, DiscoveryError>, constraints: &Constraints) -> (r: Vec<
    NodePath,
>)
    ensures
        path::spellings(r@) == targets(discovery::outcome(*selected), constraints@),
{
    let mut r: Vec<NodePath> = Vec::new();
    if let Some(p) = &constraints.serial {
        r.push(p.copy());
        assert(path::spellings(r@) =~= seq![p.spelled()]);
        return r;
    }
    match selected {
        Ok(pair) => {
            r.push(pair.serial.dev.copy());
            assert(path::spellings(r@) =~= seq![pair.serial.dev.spelled()]);
        },
        Err(_) => {
            assert(path::spellings(r@) =~= seq![]);
        },
    }
    r
}

/// No more than one node is ever asked, and a node that was not given is asked only where it is
/// the serial half of the selected pair.
pub proof fn at_most_the_selected_node_is_asked(
    selected: Result<discovery::nodes::PairView, discovery::ErrorView>,
    c: discovery::ConstraintsView,
)
    ensures
        targets(selected, c).len() <= 1,
        targets(selected, c).len() == 0 <==> c.serial is None && selected is Err,
        targets(selected, c).len() == 1 ==> Some(targets(selected, c)[0]) == c.serial || (selected
            is Ok && targets(selected, c)[0] == selected->Ok_0.serial.dev),
{
}

/// Why nothing is asked.
pub fn refusal(why: &DiscoveryError) -> (s: String)
    ensures
        s@ == "refusing to probe: "@ + why@.words()
            + "\nThe listing above is what discovery can see; --serial names the node to ask."@,
{
    let mut s = "refusing to probe: ".to_owned();
    s.append(why.text().as_str());
    s.append("\nThe listing above is what discovery can see; --serial names the node to ask.");
    s
}

/// What the command ends in, after `failed` of `asked` nodes did not answer.
pub fn verdict(failed: usize, asked: usize) -> (r: Result<(), String>)
    ensures
        match r {
            Ok(()) => failed == 0,
            Err(s) => failed > 0 && s@ == text::decimal(failed as nat) + " of "@ + text::decimal(
                asked as nat,
            ) + " probe(s) failed; see the probe blocks above"@,
        },
{
    if failed == 0 {
        return Ok(());
    }
    let mut s = text::decimal_string(failed as u128);
    s.append(" of ");
    text::push_decimal(&mut s, asked as u128);
    s.append(" probe(s) failed; see the probe blocks above");
    Err(s)
}

} // verus!
