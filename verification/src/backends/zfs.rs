//! `zfs.pool_status`: the `zpool` runs a status call makes, and how their
//! outputs are put together.
use vstd::prelude::*;
use vstd::string::*;

use crate::backends::strings_view;

verus! {

/// The arguments of each `zpool` run: `status -x` once when no pool is
/// configured, else `status -x <pool>` for each pool in turn.
pub open spec fn zpool_runs(pools: Seq<Seq<char>>) -> Seq<Seq<Seq<char>>> {
    if pools.len() == 0 {
        seq![seq!["status"@, "-x"@]]
    } else {
        Seq::new(pools.len(), |i: int| seq!["status"@, "-x"@, pools[i]])
    }
}

/// The argument lists of the `zpool` runs a `zfs.pool_status` call makes.
pub fn zpool_run_args(pools: &Vec<String>) -> (r: Vec<Vec<String>>)
    ensures
        r@.len() == zpool_runs(strings_view(pools@)).len(),
        forall|i: int|
            0 <= i < r@.len() ==> strings_view(#[trigger] r@[i]@) == zpool_runs(
                strings_view(pools@),
            )[i],
{
    let ghost pv = strings_view(pools@);
    let mut runs: Vec<Vec<String>> = Vec::new();
    if pools.len() == 0 {
        let mut args: Vec<String> = Vec::new();
        args.push(String::from_str("status"));
        args.push(String::from_str("-x"));
        assert(strings_view(args@) =~= seq!["status"@, "-x"@]);
        runs.push(args);
        return runs;
    }
    for i in 0..pools.len()
        invariant
            pv == strings_view(pools@),
            pools@.len() > 0,
            runs@.len() == i,
            forall|k: int|
                0 <= k < i ==> strings_view(#[trigger] runs@[k]@) == seq![
                    "status"@,
                    "-x"@,
                    pv[k],
                ],
    {
        let mut args: Vec<String> = Vec::new();
        args.push(String::from_str("status"));
        args.push(String::from_str("-x"));
        args.push(pools[i].clone());
        assert(strings_view(args@) =~= seq!["status"@, "-x"@, pv[i as int]]);
        runs.push(args);
    }
    runs
}

/// One pool's section of the report.
pub open spec fn pool_section(pool: Seq<char>, chunk: Seq<char>) -> Seq<char> {
    "=== "@ + pool + " ===\n"@ + chunk + "\n\n"@
}

/// The sections of the first `n` pools, in order.
pub open spec fn pool_sections(pools: Seq<Seq<char>>, chunks: Seq<Seq<char>>, n: nat) -> Seq<char>
    decreases n,
{
    if n == 0 {
        seq![]
    } else {
        pool_sections(pools, chunks, (n - 1) as nat) + pool_section(
            pools[n - 1],
            chunks[n - 1],
        )
    }
}

/// What a `zfs.pool_status` call answers with, from what its runs printed:
/// the single run's output when no pool is configured, else one section per
/// pool.
pub open spec fn pool_status_text(pools: Seq<Seq<char>>, chunks: Seq<Seq<char>>) -> Seq<char> {
    if pools.len() == 0 {
        chunks[0]
    } else {
        pool_sections(pools, chunks, pools.len())
    }
}

/// Puts together the outputs of the `zpool` runs, one per entry of
/// `zpool_run_args`, in the same order.
pub fn pool_status_report(pools: &Vec<String>, chunks: &Vec<String>) -> (r: String)
    requires
        chunks@.len() == zpool_runs(strings_view(pools@)).len(),
    ensures
        r@ == pool_status_text(strings_view(pools@), strings_view(chunks@)),
{
    if pools.len() == 0 {
        return chunks[0].clone();
    }
    let ghost pv = strings_view(pools@);
    let ghost cv = strings_view(chunks@);
    let mut out = String::new();
    for i in 0..pools.len()
        invariant
            pv == strings_view(pools@),
            cv == strings_view(chunks@),
            chunks@.len() == pools@.len(),
            out@ == pool_sections(pv, cv, i as nat),
    {
        out.append("=== ");
        out.append(pools[i].as_str());
        out.append(" ===\n");
        out.append(chunks[i].as_str());
        out.append("\n\n");
        assert(out@ =~= pool_sections(pv, cv, i as nat) + pool_section(pv[i as int], cv[i as int]));
    }
    out
}

} // verus!
