//! Trimming ASCII control bytes from both ends of a byte slice, the way the
//! line reader strips them from raw input before a number is parsed.
use vstd::prelude::*;

verus! {

/// An ASCII control byte: a code below `0x20`, or the delete byte `0x7f` —
/// the bytes `u8::is_ascii_control` accepts.
pub open spec fn is_control_byte(b: u8) -> bool {
    b < 0x20 || b == 0x7f
}

/// Whether every byte of `s` is a control byte (holds of the empty sequence).
pub open spec fn all_control(s: Seq<u8>) -> bool {
    forall|i: int| 0 <= i < s.len() ==> is_control_byte(s[i])
}

/// `s` with leading and trailing control bytes removed: control bytes are
/// dropped from either end until a non-control byte (or nothing) is left.
pub open spec fn trim_control_spec(s: Seq<u8>) -> Seq<u8>
    decreases s.len(),
{
    if s.len() == 0 {
        s
    } else if is_control_byte(s[0]) {
        trim_control_spec(s.subrange(1, s.len() as int))
    } else if is_control_byte(s[s.len() - 1]) {
        trim_control_spec(s.subrange(0, s.len() - 1))
    } else {
        s
    }
}

/// Trimming a sequence of control bytes only leaves nothing.
proof fn lemma_trim_all_control(s: Seq<u8>)
    requires
        all_control(s),
    ensures
        trim_control_spec(s) == Seq::<u8>::empty(),
    decreases s.len(),
{
    if s.len() == 0 {
        assert(s =~= Seq::<u8>::empty());
    } else {
        lemma_trim_all_control(s.subrange(1, s.len() as int));
    }
}

/// When `from` is the first non-control index and `to` the last, the trim
/// is exactly the subrange from `from` through `to`.
proof fn lemma_trim_bounds(s: Seq<u8>, from: int, to: int)
    requires
        0 <= from <= to < s.len(),
        !is_control_byte(s[from]),
        !is_control_byte(s[to]),
        forall|k: int| 0 <= k < from ==> is_control_byte(s[k]),
        forall|k: int| to < k < s.len() ==> is_control_byte(s[k]),
    ensures
        trim_control_spec(s) == s.subrange(from, to + 1),
    decreases s.len(),
{
    if from > 0 {
        let s1 = s.subrange(1, s.len() as int);
        lemma_trim_bounds(s1, from - 1, to - 1);
        assert(s1.subrange(from - 1, to) =~= s.subrange(from, to + 1));
    } else if to < s.len() - 1 {
        let s2 = s.subrange(0, s.len() - 1);
        lemma_trim_bounds(s2, 0, to);
        assert(s2.subrange(0, to + 1) =~= s.subrange(0, to + 1));
    } else {
        assert(s.subrange(0, s.len() as int) =~= s);
    }
}

/// Whether one byte is an ASCII control byte, as `u8::is_ascii_control`
/// defines them.
fn is_control(b: u8) -> (r: bool)
    ensures
        r == is_control_byte(b),
{
    b < 0x20 || b == 0x7f
}

pub trait TrimAsciiControlCharacters {
    /// The bytes the trim works on.
    spec fn byte_seq(&self) -> Seq<u8>;

    /// Returns a byte slice with leading and trailing ASCII control bytes
    /// removed. 'Control bytes' refers to the definition used by
    /// `u8::is_ascii_control`.
    fn trim_ascii_control(&self) -> (r: &[u8])
        ensures
            r@ == trim_control_spec(self.byte_seq()),
    ;
}

impl TrimAsciiControlCharacters for [u8] {
    open spec fn byte_seq(&self) -> Seq<u8> {
        self@
    }

    fn trim_ascii_control(&self) -> (r: &[u8]) {
        let len = self.len();
        let mut from: usize = 0;
        loop
            invariant
                from <= len,
                len == self@.len(),
                forall|k: int| 0 <= k < from ==> is_control_byte(self@[k]),
            ensures
                from <= len,
                forall|k: int| 0 <= k < from ==> is_control_byte(self@[k]),
                from < len ==> !is_control_byte(self@[from as int]),
                from == len ==> all_control(self@),
            decreases len - from,
        {
            if from == len {
                break ;
            }
            if !is_control(self[from]) {
                break ;
            }
            from = from + 1;
        }
        if from == len {
            proof {
                lemma_trim_all_control(self@);
                assert(self@.subrange(0, 0) =~= Seq::<u8>::empty());
            }
            return &self[0..0];
        }
        let mut to: usize = len - 1;
        loop
            invariant
                from <= to < len,
                len == self@.len(),
                !is_control_byte(self@[from as int]),
                forall|k: int| to < k < len ==> is_control_byte(self@[k]),
            ensures
                from <= to < len,
                !is_control_byte(self@[to as int]),
                forall|k: int| to < k < len ==> is_control_byte(self@[k]),
            decreases to,
        {
            if !is_control(self[to]) {
                break ;
            }
            to = to - 1;
        }
        proof {
            lemma_trim_bounds(self@, from as int, to as int);
        }
        &self[from..to + 1]
    }
}

} // verus!
