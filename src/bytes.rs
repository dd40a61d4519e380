use vstd::prelude::*;

verus! {

/// `needle` stands in `hay` starting at offset `i`.
pub open spec fn occurs_at(hay: Seq<u8>, needle: Seq<u8>, i: int) -> bool {
    0 <= i && i + needle.len() <= hay.len() && hay.subrange(i, i + needle.len()) == needle
}

/// `needle` stands somewhere in `hay`.
pub open spec fn contains(hay: Seq<u8>, needle: Seq<u8>) -> bool {
    exists|i: int| occurs_at(hay, needle, i)
}

/// `i` is the offset of the first occurrence of `needle` in `hay`.
pub open spec fn first_occurrence(hay: Seq<u8>, needle: Seq<u8>, i: int) -> bool {
    occurs_at(hay, needle, i) && forall|j: int| 0 <= j < i ==> !occurs_at(hay, needle, j)
}

/// The offset of the first occurrence of `needle` in `hay` (meaningful when it occurs).
pub open spec fn first_index(hay: Seq<u8>, needle: Seq<u8>) -> int {
    choose|i: int| first_occurrence(hay, needle, i)
}

/// `hay` with its first occurrence of `pattern` replaced by `with`;
/// `hay` itself where `pattern` does not occur.
pub open spec fn replace_first(hay: Seq<u8>, pattern: Seq<u8>, with: Seq<u8>) -> Seq<u8> {
    if contains(hay, pattern) {
        let i = first_index(hay, pattern);
        hay.subrange(0, i) + with + hay.subrange(i + pattern.len(), hay.len() as int)
    } else {
        hay
    }
}

/// Two first occurrences are the same offset.
pub proof fn lemma_first_occurrence_unique(hay: Seq<u8>, needle: Seq<u8>, i: int, j: int)
    requires
        first_occurrence(hay, needle, i),
        first_occurrence(hay, needle, j),
    ensures
        i == j,
{
    if i < j {
        assert(!occurs_at(hay, needle, i));
    } else if j < i {
        assert(!occurs_at(hay, needle, j));
    }
}

/// A needle that occurs has a first occurrence, and `first_index` is it.
pub proof fn lemma_first_index(hay: Seq<u8>, needle: Seq<u8>)
    requires
        contains(hay, needle),
    ensures
        first_occurrence(hay, needle, first_index(hay, needle)),
{
    let k = choose|k: int| occurs_at(hay, needle, k);
    lemma_some_first(hay, needle, k);
}

proof fn lemma_some_first(hay: Seq<u8>, needle: Seq<u8>, k: int)
    requires
        occurs_at(hay, needle, k),
    ensures
        exists|i: int| first_occurrence(hay, needle, i),
    decreases k,
{
    if forall|j: int| 0 <= j < k ==> !occurs_at(hay, needle, j) {
        assert(first_occurrence(hay, needle, k));
    } else {
        let j = choose|j: int| 0 <= j < k && occurs_at(hay, needle, j);
        lemma_some_first(hay, needle, j);
    }
}

/// Relies on memchr::memmem::find: the offset of the first occurrence of
/// `needle` in `hay`, or `None` where it does not occur.
#[verifier::external_body]
fn memmem_find(hay: &[u8], needle: &[u8]) -> (r: Option<usize>)
    ensures
        match r {
            Some(i) => first_occurrence(hay@, needle@, i as int),
            None => !contains(hay@, needle@),
        },
{
    memchr::memmem::find(hay, needle)
}

/// Offset of the first occurrence of `needle` in `hay`.
pub fn find(hay: &[u8], needle: &[u8]) -> (r: Option<usize>)
    ensures
        r is Some <==> contains(hay@, needle@),
        r matches Some(i) ==> i == first_index(hay@, needle@) && first_occurrence(hay@, needle@, i as int),
{
    let r = memmem_find(hay, needle);
    proof {
        if let Some(i) = r {
            lemma_first_index(hay@, needle@);
            lemma_first_occurrence_unique(hay@, needle@, i as int, first_index(hay@, needle@));
        }
    }
    r
}

/// Whether `needle` occurs in `hay`.
pub fn contains_bytes(hay: &[u8], needle: &[u8]) -> (r: bool)
    ensures
        r == contains(hay@, needle@),
{
    find(hay, needle).is_some()
}

/// Replaces `buf[start..start + len]` by `with`.
fn splice(buf: &Vec<u8>, start: usize, len: usize, with: &[u8]) -> (r: Vec<u8>)
    requires
        start + len <= buf@.len(),
    ensures
        r@ == buf@.subrange(0, start as int) + with@ + buf@.subrange(
            (start + len) as int,
            buf@.len() as int,
        ),
{
    let total = buf.len();
    let end = start + len;
    let mut out: Vec<u8> = Vec::new();
    let mut i: usize = 0;
    while i < start
        invariant
            i <= start,
            start + len <= buf@.len(),
            out@ == buf@.subrange(0, i as int),
        decreases start - i,
    {
        out.push(buf[i]);
        i = i + 1;
        assert(out@ =~= buf@.subrange(0, i as int));
    }
    let mut k: usize = 0;
    while k < with.len()
        invariant
            k <= with@.len(),
            out@ == buf@.subrange(0, start as int) + with@.subrange(0, k as int),
        decreases with@.len() - k,
    {
        out.push(with[k]);
        k = k + 1;
        assert(out@ =~= buf@.subrange(0, start as int) + with@.subrange(0, k as int));
    }
    assert(with@.subrange(0, with@.len() as int) =~= with@);
    let mut j: usize = end;
    while j < total
        invariant
            start + len <= j <= buf@.len(),
            total == buf@.len(),
            out@ == buf@.subrange(0, start as int) + with@ + buf@.subrange(
                (start + len) as int,
                j as int,
            ),
        decreases buf@.len() - j,
    {
        out.push(buf[j]);
        j = j + 1;
        assert(out@ =~= buf@.subrange(0, start as int) + with@ + buf@.subrange(
            (start + len) as int,
            j as int,
        ));
    }
    out
}

/// Replaces the first occurrence of `pattern` in `codebuf` by `replace_with`.
/// Returns whether the pattern was found; where it was not, `codebuf` is left as it was.
pub fn replace_bytes(codebuf: &mut Vec<u8>, pattern: &[u8], replace_with: &[u8]) -> (found: bool)
    ensures
        found == contains(old(codebuf)@, pattern@),
        final(codebuf)@ == replace_first(old(codebuf)@, pattern@, replace_with@),
{
    match find(codebuf.as_slice(), pattern) {
        Some(at) => {
            let out = splice(codebuf, at, pattern.len(), replace_with);
            *codebuf = out;
            true
        },
        None => false,
    }
}

} // verus!
