use vstd::prelude::*;

verus! {

/// True of the five bytes that count as ASCII whitespace: space, tab,
/// line feed, form feed, carriage return.
pub open spec fn is_ascii_whitespace_byte(b: u8) -> bool {
    b == 0x20 || b == 0x09 || b == 0x0a || b == 0x0c || b == 0x0d
}

/// Executable test for the same five bytes.
pub fn byte_is_ascii_whitespace(b: u8) -> (r: bool)
    ensures
        r == is_ascii_whitespace_byte(b),
{
    b == 0x20 || b == 0x09 || b == 0x0a || b == 0x0c || b == 0x0d
}

/// `s` with every ASCII whitespace byte removed: the canonical form under
/// which file contents are hashed, so that formatting-only differences
/// never change a digest.
pub open spec fn ws_filtered(s: Seq<u8>) -> Seq<u8> {
    s.filter(|b: u8| !is_ascii_whitespace_byte(b))
}

/// Copies `data` with every ASCII whitespace byte dropped.
pub fn filter_ascii_whitespace(data: &Vec<u8>) -> (r: Vec<u8>)
    ensures
        r@ == ws_filtered(data@),
{
    let mut r: Vec<u8> = Vec::new();
    let mut i: usize = 0;
    while i < data.len()
        invariant
            0 <= i <= data@.len(),
            r@ == ws_filtered(data@.take(i as int)),
        decreases data@.len() - i,
    {
        let b = data[i];
        if !byte_is_ascii_whitespace(b) {
            r.push(b);
        }
        proof {
            reveal(Seq::filter);
            assert(data@.take((i + 1) as int).drop_last() =~= data@.take(i as int));
            assert(data@.take((i + 1) as int).last() == data@[i as int]);
        }
        i = i + 1;
    }
    proof {
        assert(data@.take(data@.len() as int) =~= data@);
    }
    r
}

/// Wraps a reader so that everything read through it comes back with the
/// ASCII whitespace bytes skipped.
pub struct AsciiWhitespaceSkippingReader<R>(pub R);

impl<R> AsciiWhitespaceSkippingReader<R> {
    pub fn new(reader: R) -> (r: Self)
        ensures
            r.0 == reader,
    {
        AsciiWhitespaceSkippingReader(reader)
    }
}

impl AsciiWhitespaceSkippingReader<Vec<u8>> {
    /// Reads the whole wrapped buffer, whitespace skipped.
    pub fn read_all(&self) -> (r: Vec<u8>)
        ensures
            r@ == ws_filtered(self.0@),
    {
        filter_ascii_whitespace(&self.0)
    }
}

/// Dropping whitespace distributes over concatenation; with
/// `lemma_ws_only_filters_to_empty` this is why inserted or trailing
/// whitespace never changes the canonical form.
pub proof fn lemma_ws_filter_append(a: Seq<u8>, b: Seq<u8>)
    ensures
        ws_filtered(a + b) == ws_filtered(a) + ws_filtered(b),
{
    Seq::<u8>::filter_distributes_over_add(a, b, |x: u8| !is_ascii_whitespace_byte(x));
}

/// A run of nothing but whitespace filters away completely.
pub proof fn lemma_ws_only_filters_to_empty(a: Seq<u8>)
    requires
        forall|i: int| 0 <= i < a.len() ==> is_ascii_whitespace_byte(a[i]),
    ensures
        ws_filtered(a) == Seq::<u8>::empty(),
    decreases a.len(),
{
    reveal(Seq::filter);
    if a.len() == 0 {
        assert(ws_filtered(a) =~= Seq::<u8>::empty());
    } else {
        lemma_ws_only_filters_to_empty(a.drop_last());
        assert(ws_filtered(a) =~= Seq::<u8>::empty());
    }
}

} // verus!
