//! Byte-class scanning shared by the grammar's parsers.

use vstd::prelude::*;

verus! {

/// The byte classes the grammar scans over.
#[derive(Clone, Copy, PartialEq, Eq, Structural, Debug)]
pub enum ByteClass {
    Digit,
    DigitOrUnderscore,
    Whitespace,
    NotCrlf,
    NotSpaceTab,
    DotSlash,
    NotDot,
}

pub open spec fn in_class(c: ByteClass, b: u8) -> bool {
    match c {
        ByteClass::Digit => 48 <= b <= 57,
        ByteClass::DigitOrUnderscore => 48 <= b <= 57 || b == 95,
        ByteClass::Whitespace => b == 32 || b == 9 || b == 13 || b == 10,
        ByteClass::NotCrlf => b != 13 && b != 10,
        ByteClass::NotSpaceTab => b != 32 && b != 9,
        ByteClass::DotSlash => b == 46 || b == 47,
        ByteClass::NotDot => b != 46,
    }
}

/// The length of the maximal run of bytes of class `c` starting at
/// `from`.
pub open spec fn run_len(s: Seq<u8>, from: int, c: ByteClass) -> int
    decreases s.len() - from,
{
    if from < 0 || from >= s.len() || !in_class(c, s[from]) {
        0
    } else {
        1 + run_len(s, from + 1, c)
    }
}

/// The run is in range, all its bytes are of the class, and it is
/// maximal.
pub proof fn lemma_run_len(s: Seq<u8>, from: int, c: ByteClass)
    requires
        0 <= from <= s.len(),
    ensures
        0 <= run_len(s, from, c),
        from + run_len(s, from, c) <= s.len(),
        forall|i: int| from <= i < from + run_len(s, from, c) ==> in_class(c, #[trigger] s[i]),
        from + run_len(s, from, c) < s.len() ==> !in_class(c, s[from + run_len(s, from, c)]),
    decreases s.len() - from,
{
    if from < s.len() && in_class(c, s[from]) {
        lemma_run_len(s, from + 1, c);
    }
}

/// `run_len` is fixed by its characterisation: the given length is in
/// range, covered by the class, and maximal.
pub proof fn lemma_run_len_is(s: Seq<u8>, from: int, c: ByteClass, l: int)
    requires
        0 <= from,
        0 <= l,
        from + l <= s.len(),
        forall|i: int| from <= i < from + l ==> in_class(c, #[trigger] s[i]),
        from + l < s.len() ==> !in_class(c, s[from + l]),
    ensures
        run_len(s, from, c) == l,
    decreases l,
{
    if l > 0 {
        lemma_run_len_is(s, from + 1, c, l - 1);
    }
}

/// Scanning a suffix from its start sees the same run as scanning the
/// whole sequence from the suffix's offset.
pub proof fn lemma_run_len_shift(s: Seq<u8>, from: int, c: ByteClass)
    requires
        0 <= from <= s.len(),
    ensures
        run_len(s, from, c) == run_len(s.subrange(from, s.len() as int), 0, c),
{
    lemma_run_len(s, from, c);
    let l = run_len(s, from, c);
    let t = s.subrange(from, s.len() as int);
    lemma_run_len_is(t, 0, c, l);
}

fn in_class_exec(b: u8, c: ByteClass) -> (r: bool)
    ensures
        r == in_class(c, b),
{
    match c {
        ByteClass::Digit => 48 <= b && b <= 57,
        ByteClass::DigitOrUnderscore => (48 <= b && b <= 57) || b == 95,
        ByteClass::Whitespace => b == 32 || b == 9 || b == 13 || b == 10,
        ByteClass::NotCrlf => b != 13 && b != 10,
        ByteClass::NotSpaceTab => b != 32 && b != 9,
        ByteClass::DotSlash => b == 46 || b == 47,
        ByteClass::NotDot => b != 46,
    }
}

/// Scans the maximal run of class `c` from `from` and returns its end.
pub fn scan(input: &[u8], from: usize, c: ByteClass) -> (end: usize)
    requires
        from <= input@.len(),
    ensures
        end == from + run_len(input@, from as int, c),
        from <= end <= input@.len(),
{
    proof {
        lemma_run_len(input@, from as int, c);
    }
    let mut i: usize = from;
    while i < input.len() && in_class_exec(input[i as usize], c)
        invariant
            from <= i <= input@.len(),
            run_len(input@, from as int, c) == (i - from) + run_len(input@, i as int, c),
            0 <= run_len(input@, i as int, c),
        decreases input@.len() - i,
    {
        proof {
            lemma_run_len(input@, i as int + 1, c);
        }
        i = i + 1;
    }
    i
}

/// The literal `tag` occurs at position `from`.
pub open spec fn tag_at(s: Seq<u8>, from: int, tag: Seq<u8>) -> bool {
    &&& 0 <= from
    &&& from + tag.len() <= s.len()
    &&& forall|i: int| 0 <= i < tag.len() ==> s[from + i] == #[trigger] tag[i]
}

/// Tests whether `tag` occurs at position `from`.
pub fn starts_with_at(input: &[u8], from: usize, tag: &[u8]) -> (r: bool)
    requires
        from <= input@.len(),
    ensures
        r == tag_at(input@, from as int, tag@),
{
    if input.len() - from < tag.len() {
        return false;
    }
    let mut i: usize = 0;
    while i < tag.len()
        invariant
            i <= tag@.len(),
            from + tag@.len() <= input@.len(),
            input@.len() <= usize::MAX,
            forall|j: int| 0 <= j < i ==> input@[from + j] == #[trigger] tag@[j],
        decreases tag@.len() - i,
    {
        if input[from + i] != tag[i] {
            return false;
        }
        i = i + 1;
    }
    true
}

/// ASCII lower-casing of one byte.
pub open spec fn lower(b: u8) -> u8 {
    if 65 <= b <= 90 {
        (b + 32) as u8
    } else {
        b
    }
}

/// The literal `tag` occurs at `from` up to ASCII case.
pub open spec fn tag_nocase_at(s: Seq<u8>, from: int, tag: Seq<u8>) -> bool {
    &&& 0 <= from
    &&& from + tag.len() <= s.len()
    &&& forall|i: int| 0 <= i < tag.len() ==> lower(s[from + i]) == lower(#[trigger] tag[i])
}

/// Tests whether `tag` occurs at `from` up to ASCII case.
pub fn starts_with_nocase_at(input: &[u8], from: usize, tag: &[u8]) -> (r: bool)
    requires
        from <= input@.len(),
    ensures
        r == tag_nocase_at(input@, from as int, tag@),
{
    if input.len() - from < tag.len() {
        return false;
    }
    let mut i: usize = 0;
    while i < tag.len()
        invariant
            i <= tag@.len(),
            from + tag@.len() <= input@.len(),
            input@.len() <= usize::MAX,
            forall|j: int| 0 <= j < i ==> lower(input@[from + j]) == lower(#[trigger] tag@[j]),
        decreases tag@.len() - i,
    {
        let a = input[from + i];
        let b = tag[i];
        let la = if 65 <= a && a <= 90 {
            a + 32
        } else {
            a
        };
        let lb = if 65 <= b && b <= 90 {
            b + 32
        } else {
            b
        };
        if la != lb {
            return false;
        }
        i = i + 1;
    }
    true
}

} // verus!
