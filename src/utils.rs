use vstd::prelude::*;

verus! {

/// The product name, as it appears in the `User-Agent` header and in error reports.
pub open spec fn spec_name() -> Seq<char> {
    seq!['q', 'u', 'i', 's', 't']
}

/// The product version, as it appears in the `User-Agent` header.
pub open spec fn spec_version() -> Seq<char> {
    seq!['0', '.', '1', '.', '0']
}

/// Name of the program.
pub fn get_name() -> (r: &'static str)
    ensures
        r@ == spec_name(),
{
    let r = "quist";
    proof {
        reveal_strlit("quist");
        assert(r@ =~= spec_name());
    }
    r
}

/// Version of the program.
pub fn get_version() -> (r: &'static str)
    ensures
        r@ == spec_version(),
{
    let r = "0.1.0";
    proof {
        reveal_strlit("0.1.0");
        assert(r@ =~= spec_version());
    }
    r
}

} // verus!
