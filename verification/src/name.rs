//! The fixed-width 8.3 short filename: 8 name bytes and 3 extension bytes,
//! upper-cased on construction and space-padded.

use vstd::prelude::*;
use vstd::string::StringSliceAdditionalSpecFns;
use crate::ascii::{
    push_bytes_as_chars, push_char, spec_chars_of_bytes, spec_pad_field, spec_trim,
    spec_trim_end, spec_upper_bytes, to_upper, trim_end_in, trim_start_in, PAD,
};

verus! {

/// The display form this type renders: both segments trimmed of spaces and
/// rejoined with a dot, unconditionally — even an empty extension keeps the
/// dot. (A directory entry's display form differs: it omits the dot.)
pub open spec fn spec_short_name_display(f: Seq<u8>) -> Seq<char> {
    spec_chars_of_bytes(spec_trim(f.take(8))) + seq!['.'] + spec_chars_of_bytes(
        spec_trim(f.skip(8)),
    )
}

/// A short 8.3 filename held in its 11-byte fixed-width form.
#[derive(Debug, Clone, PartialEq)]
pub struct ShortFileName {
    name: [u8; 11],
}

impl ShortFileName {
    /// The stored 11-byte field: 8 name bytes then 3 extension bytes.
    pub closed spec fn spec_field(&self) -> Seq<u8> {
        self.name@
    }

    /// Build the 11-byte form from a base name and an extension: each
    /// segment is upper-cased, truncated to its window and space-padded.
    pub fn new(name: &str, ext: &str) -> (r: Self)
        ensures
            r.spec_field() == spec_pad_field(spec_upper_bytes(name.spec_bytes()), 8)
                + spec_pad_field(spec_upper_bytes(ext.spec_bytes()), 3),
    {
        let name_bytes = name.as_bytes();
        let ext_bytes = ext.as_bytes();
        let mut field: [u8; 11] = [PAD; 11];
        let mut i: usize = 0;
        while i < 8 && i < name_bytes.len()
            invariant
                i <= 8,
                i <= name_bytes@.len(),
                field@.len() == 11,
                forall|j: int| 0 <= j < i ==> field@[j] == spec_to_upper_at(name_bytes@, j),
                forall|j: int| i <= j < 11 ==> field@[j] == PAD,
            decreases 8 - i,
        {
            field[i] = to_upper(name_bytes[i]);
            i = i + 1;
        }
        let mut j: usize = 0;
        while j < 3 && j < ext_bytes.len()
            invariant
                j <= 3,
                j <= ext_bytes@.len(),
                i <= 8,
                i <= name_bytes@.len(),
                i == 8 || i >= name_bytes@.len(),
                field@.len() == 11,
                forall|k: int| 0 <= k < i ==> field@[k] == spec_to_upper_at(name_bytes@, k),
                forall|k: int| i <= k < 8 ==> field@[k] == PAD,
                forall|k: int| 0 <= k < j ==> #[trigger] field@[8 + k] == spec_to_upper_at(ext_bytes@, k),
                forall|k: int| j <= k < 3 ==> #[trigger] field@[8 + k] == PAD,
            decreases 3 - j,
        {
            field[8 + j] = to_upper(ext_bytes[j]);
            j = j + 1;
        }
        let r = ShortFileName { name: field };
        proof {
            let expect = spec_pad_field(spec_upper_bytes(name.spec_bytes()), 8) + spec_pad_field(
                spec_upper_bytes(ext.spec_bytes()),
                3,
            );
            assert forall|k: int| 0 <= k < 11 implies field@[k] == expect[k] by {
                if k < 8 {
                    assert(expect[k] == spec_pad_field(spec_upper_bytes(name.spec_bytes()), 8)[k]);
                    if k < name_bytes@.len() {
                        assert(field@[k] == spec_to_upper_at(name_bytes@, k));
                        assert(spec_upper_bytes(name_bytes@)[k] == spec_to_upper_at(
                            name_bytes@,
                            k,
                        ));
                    } else {
                        assert(field@[k] == PAD);
                    }
                } else {
                    let k2 = k - 8;
                    assert(field@[8 + k2] == field@[k]);
                    assert(expect[k] == spec_pad_field(spec_upper_bytes(ext.spec_bytes()), 3)[k2]);
                    if k2 < ext_bytes@.len() {
                        assert(field@[8 + k2] == spec_to_upper_at(ext_bytes@, k2));
                        assert(spec_upper_bytes(ext_bytes@)[k2] == spec_to_upper_at(
                            ext_bytes@,
                            k2,
                        ));
                    } else {
                        assert(field@[8 + k2] == PAD);
                    }
                }
            }
            assert(r.spec_field() =~= expect);
        }
        r
    }

    /// Render `"NAME.EXT"`: both segments trimmed of spaces, the dot always
    /// present.
    pub fn as_str(&self) -> (r: String)
        ensures
            r@ == spec_short_name_display(self.spec_field()),
    {
        let s = self.name.as_slice();
        let name_end = trim_end_in(s, 0, 8);
        let name_start = trim_start_in(s, 0, name_end);
        let ext_end = trim_end_in(s, 8, 11);
        let ext_start = trim_start_in(s, 8, ext_end);
        let mut out = String::new();
        push_bytes_as_chars(&mut out, s, name_start, name_end);
        push_char(&mut out, '.');
        push_bytes_as_chars(&mut out, s, ext_start, ext_end);
        proof {
            let f = self.spec_field();
            assert(f.take(8) =~= s@.subrange(0, 8));
            assert(f.skip(8) =~= s@.subrange(8, 11));
            assert(spec_trim_end(s@.subrange(0, 8)) =~= s@.subrange(0, name_end as int));
            assert(spec_trim(s@.subrange(0, 8)) =~= s@.subrange(
                name_start as int,
                name_end as int,
            ));
            assert(spec_trim_end(s@.subrange(8, 11)) =~= s@.subrange(8, ext_end as int));
            assert(spec_trim(s@.subrange(8, 11)) =~= s@.subrange(ext_start as int, ext_end as int));
            assert(out@ =~= spec_short_name_display(f));
        }
        out
    }
}

/// Upper-cased byte `j` of `s`; used to state the construction loop's
/// progress.
pub open spec fn spec_to_upper_at(s: Seq<u8>, j: int) -> u8 {
    crate::ascii::spec_to_upper(s[j])
}

} // verus!
