//! Reformatting of day-first locale timestamps (`DD/MM/YYYY HH:MM:SS`)
//! into ISO-like form (`YYYY-MM-DDTHH:MM:SS`).

use vstd::prelude::*;
use vstd::string::StringExecFns;
use crate::text::{spec_split, split_char};

verus! {

/// What reformatting yields: when the input splits into exactly two
/// space-separated parts and the first into exactly three slash-separated
/// parts, the date pieces are reordered and joined to the time with `T`;
/// any other input comes back unchanged.
pub open spec fn spec_reformat_datetime(s: Seq<char>) -> Seq<char> {
    let parts = spec_split(s, ' ');
    if parts.len() != 2 {
        s
    } else {
        let dparts = spec_split(parts[0], '/');
        if dparts.len() != 3 {
            s
        } else {
            dparts[2] + seq!['-'] + dparts[1] + seq!['-'] + dparts[0] + seq!['T'] + parts[1]
        }
    }
}

/// Reformat a day-first locale timestamp `DD/MM/YYYY HH:MM:SS` as
/// `YYYY-MM-DDTHH:MM:SS`; input of any other shape is returned verbatim.
pub fn parse_brazilian_datetime(datetime: &str) -> (r: String)
    ensures
        r@ == spec_reformat_datetime(datetime@),
{
    let parts = split_char(datetime, ' ');
    if parts.len() != 2 {
        return datetime.to_owned();
    }
    let dparts = split_char(parts[0].as_str(), '/');
    if dparts.len() != 3 {
        return datetime.to_owned();
    }
    let mut out = dparts[2].clone();
    out.append("-");
    out.append(dparts[1].as_str());
    out.append("-");
    out.append(dparts[0].as_str());
    out.append("T");
    out.append(parts[1].as_str());
    proof {
        reveal_strlit("-");
        reveal_strlit("T");
        assert("-"@ =~= seq!['-']);
        assert("T"@ =~= seq!['T']);
        assert(parts[0]@ == parts.deep_view()[0]);
        assert(parts[1]@ == parts.deep_view()[1]);
        assert(dparts[0]@ == dparts.deep_view()[0]);
        assert(dparts[1]@ == dparts.deep_view()[1]);
        assert(dparts[2]@ == dparts.deep_view()[2]);
        assert(out@ =~= spec_reformat_datetime(datetime@));
    }
    out
}

} // verus!
