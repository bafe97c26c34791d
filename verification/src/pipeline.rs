//! Planning of the resolution pipeline and collection of its results.
//!
//! For every input line after the skipped first header line, the pipeline
//! decides one of three things: the line carries no address (timeout marker
//! or malformed field) and is dropped; the address is local and the remote
//! lookup is skipped as a trivial non-error; or the address is planned for
//! one independent lookup task. Lookups run outside; each either yields a
//! record or fails and is silently dropped. Collection keeps every record
//! a lookup produced, in the order the outcomes stand, and drops nothing
//! else.

use vstd::prelude::*;

use crate::classify::spec_is_local;
use crate::classify::is_local_ip;
use crate::hopline::spec_parse_hop;
use crate::hopline::parse_hop_line;
use crate::record::LocationRecord;

verus! {

/// What the pipeline does with one input line.
pub enum HopPlan {
    /// The line carries no usable address: dropped, no task spawned.
    NoAddress,
    /// The address is local: the remote lookup is skipped, no error.
    SkipLocal,
    /// The address is planned for one remote lookup task.
    Lookup { address: String },
}

/// Decides what to do with one hop line: drop it when it carries no
/// address, skip the lookup when the address is local, and plan a lookup
/// for its bare address otherwise.
pub fn plan_hop(line: &str) -> (p: HopPlan)
    ensures
        p is NoAddress <==> spec_parse_hop(line@) is None,
        spec_parse_hop(line@) matches Some(t) ==> (p is SkipLocal <==> spec_is_local(t)),
        spec_parse_hop(line@) matches Some(t) ==> (spec_is_local(t) || (p matches
            HopPlan::Lookup { address } && address@ == t)),
{
    match parse_hop_line(line) {
        None => HopPlan::NoAddress,
        Some(address) => {
            if is_local_ip(address.as_str()) {
                HopPlan::SkipLocal
            } else {
                HopPlan::Lookup { address }
            }
        },
    }
}

/// The addresses among `ls` that get a lookup task: the candidates of the
/// lines that parse, minus the local ones, in line order.
pub open spec fn spec_lookup_addresses(ls: Seq<Seq<char>>) -> Seq<Seq<char>>
    decreases ls.len(),
{
    if ls.len() == 0 {
        Seq::empty()
    } else {
        let rest = spec_lookup_addresses(ls.drop_last());
        match spec_parse_hop(ls.last()) {
            Some(t) => if !spec_is_local(t) {
                rest.push(t)
            } else {
                rest
            },
            None => rest,
        }
    }
}

/// The lookup plan of a whole input: the first line is always excluded,
/// whatever it holds, and the rest are planned line by line.
pub open spec fn spec_plan_lines(ls: Seq<Seq<char>>) -> Seq<Seq<char>> {
    if ls.len() == 0 {
        Seq::empty()
    } else {
        spec_lookup_addresses(ls.subrange(1, ls.len() as int))
    }
}

/// The first input line never contributes to the plan: two inputs that
/// agree after their first line have the same lookup plan, whatever their
/// first lines hold.
pub proof fn lemma_first_line_ignored(ls1: Seq<Seq<char>>, ls2: Seq<Seq<char>>)
    requires
        ls1.len() >= 1,
        ls2.len() >= 1,
        ls1.subrange(1, ls1.len() as int) == ls2.subrange(1, ls2.len() as int),
    ensures
        spec_plan_lines(ls1) == spec_plan_lines(ls2),
{
}

/// Plans a whole input: skips the first (header) line unconditionally and
/// returns, in line order, every non-local candidate address of the rest.
pub fn plan_lines(lines: &Vec<String>) -> (addrs: Vec<String>)
    ensures
        addrs@.map_values(|a: String| a@) == spec_plan_lines(
            lines@.map_values(|l: String| l@),
        ),
{
    let ghost lsv = lines@.map_values(|l: String| l@);
    let mut addrs: Vec<String> = Vec::new();
    if lines.len() == 0 {
        proof {
            assert(addrs@.map_values(|a: String| a@) =~= Seq::<Seq<char>>::empty());
        }
        return addrs;
    }
    let mut i: usize = 1;
    proof {
        assert(addrs@.map_values(|a: String| a@) =~= spec_lookup_addresses(
            lsv.subrange(1, 1),
        ));
    }
    while i < lines.len()
        invariant
            1 <= i <= lines.len(),
            lsv == lines@.map_values(|l: String| l@),
            addrs@.map_values(|a: String| a@) == spec_lookup_addresses(lsv.subrange(1, i as int)),
        decreases lines.len() - i,
    {
        let ghost pre = lsv.subrange(1, i as int);
        let ghost cur = lsv.subrange(1, i + 1);
        proof {
            assert(cur.drop_last() =~= pre);
            assert(cur.last() == lines@[i as int]@);
        }
        let p = plan_hop(lines[i].as_str());
        if let HopPlan::Lookup { address } = p {
            let ghost olda = addrs@;
            addrs.push(address);
            proof {
                assert(addrs@.map_values(|a: String| a@) =~= olda.map_values(
                    |a: String| a@,
                ).push(address@));
            }
        }
        i = i + 1;
    }
    proof {
        assert(lsv.subrange(1, lines@.len() as int) =~= lsv.subrange(1, lsv.len() as int));
    }
    addrs
}

/// The records among a set of lookup outcomes, in outcome order: every
/// success is kept, every failure is dropped.
pub open spec fn spec_collected(outs: Seq<Option<LocationRecord>>) -> Seq<LocationRecord>
    decreases outs.len(),
{
    if outs.len() == 0 {
        Seq::empty()
    } else {
        match outs.first() {
            Some(r) => seq![r] + spec_collected(outs.drop_first()),
            None => spec_collected(outs.drop_first()),
        }
    }
}

/// Collects the outcomes of all lookup tasks into the final result set:
/// exactly the successful records, in outcome order, no loss and no
/// duplication.
pub fn collect_results(outcomes: Vec<Option<LocationRecord>>) -> (rs: Vec<LocationRecord>)
    ensures
        rs@ == spec_collected(outcomes@),
{
    let ghost orig = outcomes@;
    let mut outcomes = outcomes;
    let mut rs: Vec<LocationRecord> = Vec::new();
    proof {
        assert(rs@ + spec_collected(outcomes@) =~= spec_collected(orig));
    }
    while outcomes.len() > 0
        invariant
            spec_collected(orig) == rs@ + spec_collected(outcomes@),
        decreases outcomes.len(),
    {
        let ghost before = outcomes@;
        let o = outcomes.remove(0);
        proof {
            assert(outcomes@ =~= before.drop_first());
            assert(before.first() == o);
        }
        match o {
            Some(r) => {
                let ghost oldrs = rs@;
                rs.push(r);
                proof {
                    assert(oldrs + (seq![r] + spec_collected(outcomes@)) =~= rs@
                        + spec_collected(outcomes@));
                }
            },
            None => {},
        }
    }
    proof {
        assert(rs@ + spec_collected(outcomes@) =~= rs@);
    }
    rs
}

} // verus!
