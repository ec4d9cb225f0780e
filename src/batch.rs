use vstd::prelude::*;
use vstd::string::StringSliceAdditionalSpecFns;

verus! {

/// The byte that ends the ticker column of a batch input line.
pub const COMMA: u8 = 44;

/// The ticker column of a line of a batch input file: the text before the
/// first comma. A line without a comma has no ticker column.
pub fn ticker_of_line(line: &str) -> (r: Option<&str>)
    ensures
        r is None <==> !line.spec_bytes().contains(COMMA),
        r is Some ==> ({
            let t = r->0.spec_bytes();
            &&& t.len() < line.spec_bytes().len()
            &&& t == line.spec_bytes().take(t.len() as int)
            &&& line.spec_bytes()[t.len() as int] == COMMA
            &&& !t.contains(COMMA)
        }),
{
    let bytes = line.as_bytes();
    let mut k: usize = 0;
    while k < bytes.len()
        invariant
            k <= bytes@.len(),
            bytes@ == line.spec_bytes(),
            forall|i: int| 0 <= i < k ==> bytes@[i] != COMMA,
        decreases bytes@.len() - k,
    {
        if bytes[k] == COMMA {
            proof {
                vstd::utf8::encode_utf8_valid_utf8(line@);
                vstd::utf8::is_char_boundary_iff_not_is_continuation_byte(line.spec_bytes(), k as int);
            }
            let (ticker, _) = line.split_at(k);
            proof {
                let t = ticker.spec_bytes();
                assert(t =~= line.spec_bytes().take(k as int));
                if t.contains(COMMA) {
                    let i = choose|i: int| 0 <= i < t.len() && t[i] == COMMA;
                    assert(bytes@[i] == COMMA);
                }
            }
            return Some(ticker);
        }
        k += 1;
    }
    proof {
        if line.spec_bytes().contains(COMMA) {
            let i = choose|i: int| 0 <= i < line.spec_bytes().len() && line.spec_bytes()[i] == COMMA;
            assert(bytes@[i] == COMMA);
        }
    }
    None
}

} // verus!
