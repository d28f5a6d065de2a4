use vstd::prelude::*;

verus! {

/// Whether the two-character event delimiter `>>` stands at position `i` of
/// the line.
pub open spec fn delim_at(s: Seq<char>, i: int) -> bool {
    &&& 0 <= i
    &&& i + 2 <= s.len()
    &&& s[i] == '>'
    &&& s[i + 1] == '>'
}

/// The position of the first delimiter at or after `i`, if any.
pub open spec fn first_delim_from(s: Seq<char>, i: int) -> Option<int>
    decreases s.len() - i,
    when 0 <= i
{
    if i + 2 > s.len() {
        None
    } else if s[i] == '>' && s[i + 1] == '>' {
        Some(i)
    } else {
        first_delim_from(s, i + 1)
    }
}

/// The position of the first delimiter in the line, if any.
pub open spec fn first_delim(s: Seq<char>) -> Option<int> {
    first_delim_from(s, 0)
}

/// Split a decoded line at the first occurrence of the delimiter `>>` into
/// the event kind (everything before it) and the payload (everything after
/// it). A line without the delimiter is not a recognized event: the caller
/// logs and skips it, it never aborts the loop.
pub fn split_event(line: &str) -> (r: Option<(String, String)>)
    ensures
        r is Some <==> first_delim(line@) is Some,
        r matches Some(kp) ==> (first_delim(line@) matches Some(i) && kp.0@ == line@.take(i)
            && kp.1@ == line@.skip(i + 2)),
{
    let n = line.unicode_len();
    if n < 2 {
        proof {
            assert(first_delim_from(line@, 0) is None);
        }
        return None;
    }
    let mut i: usize = 0;
    while i <= n - 2
        invariant
            n == line@.len(),
            2 <= n,
            i <= n - 1,
            first_delim(line@) == first_delim_from(line@, i as int),
        decreases n - i,
    {
        if line.get_char(i) == '>' && line.get_char(i + 1) == '>' {
            let kind = line.substring_char(0, i).to_owned();
            let payload = line.substring_char(i + 2, n).to_owned();
            proof {
                assert(first_delim_from(line@, i as int) == Some(i as int));
                assert(line@.subrange(0, i as int) =~= line@.take(i as int));
                assert(line@.subrange(i + 2, n as int) =~= line@.skip(i + 2));
            }
            return Some((kind, payload));
        }
        i += 1;
    }
    proof {
        assert(first_delim_from(line@, i as int) is None);
    }
    None
}

} // verus!
