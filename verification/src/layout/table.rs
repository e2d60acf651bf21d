//! Tables: records of one type, one after the other.

use vstd::prelude::*;
use crate::bytes::{lemma_join, lemma_split};
use crate::layout::Record;

verus! {

/// The encoding of a table: the encodings of its records, in order.
pub open spec fn table_bytes<R: Record>(items: Seq<R>) -> Seq<u8>
    decreases items.len(),
{
    if items.len() == 0 {
        Seq::empty()
    } else {
        table_bytes(items.drop_last()) + items.last().to_bytes()
    }
}

/// Appending a record to a table appends its encoding.
pub proof fn lemma_table_push<R: Record>(items: Seq<R>, r: R)
    ensures
        table_bytes(items.push(r)) == table_bytes(items) + r.to_bytes(),
{
    assert(items.push(r).drop_last() =~= items);
}

/// A table of `n` records takes `n` times the record size.
pub proof fn lemma_table_len<R: Record>(items: Seq<R>)
    ensures
        table_bytes(items).len() == items.len() * R::spec_size(),
    decreases items.len(),
{
    if items.len() > 0 {
        lemma_table_len(items.drop_last());
        items.last().lemma_size();
        assert((items.len() - 1) * R::spec_size() + R::spec_size() == items.len() * R::spec_size())
            by (nonlinear_arith);
    } else {
        assert(0 * R::spec_size() == 0) by (nonlinear_arith);
    }
}

/// The encoding of record `i` stands at `i` times the record size.
pub proof fn lemma_table_entry<R: Record>(items: Seq<R>, i: int)
    requires
        0 <= i < items.len(),
    ensures
        0 <= i * R::spec_size(),
        (i + 1) * R::spec_size() <= table_bytes(items).len(),
        table_bytes(items).subrange(i * R::spec_size(), (i + 1) * R::spec_size())
            == items[i].to_bytes(),
    decreases items.len(),
{
    let n = R::spec_size() as int;
    let front = items.drop_last();
    lemma_table_len(items);
    lemma_table_len(front);
    items.last().lemma_size();
    assert(0 <= i * n && (i + 1) * n == i * n + n && (i + 1) * n <= items.len() * n)
        by (nonlinear_arith)
        requires
            0 <= i < items.len(),
            0 < n,
    ;
    assert((items.len() - 1) * n + n == items.len() * n) by (nonlinear_arith);
    if i == items.len() - 1 {
        assert(table_bytes(items).subrange(i * n, (i + 1) * n) =~= items[i].to_bytes());
    } else {
        lemma_table_entry(front, i);
        assert(table_bytes(items).subrange(i * n, (i + 1) * n) =~= table_bytes(front).subrange(
            i * n,
            (i + 1) * n,
        ));
    }
}

/// Tables with the same encoding hold the same records.
pub proof fn lemma_table_injective<R: Record>(a: Seq<R>, b: Seq<R>)
    requires
        table_bytes(a) == table_bytes(b),
    ensures
        a == b,
    decreases a.len(),
{
    let n = R::spec_size() as int;
    lemma_table_len(a);
    lemma_table_len(b);
    if a.len() == 0 {
        if b.len() > 0 {
            b.last().lemma_size();
            assert(b.len() * n > 0) by (nonlinear_arith)
                requires
                    b.len() > 0,
                    n > 0,
            ;
        }
        assert(a =~= b);
    } else {
        a.last().lemma_size();
        assert(a.len() == b.len()) by (nonlinear_arith)
            requires
                a.len() * n == b.len() * n,
                n > 0,
        ;
        b.last().lemma_size();
        lemma_split(
            table_bytes(a.drop_last()),
            a.last().to_bytes(),
            table_bytes(b.drop_last()),
            b.last().to_bytes(),
        );
        a.last().lemma_injective(&b.last());
        lemma_table_injective(a.drop_last(), b.drop_last());
        assert(a =~= a.drop_last().push(a.last()));
        assert(b =~= b.drop_last().push(b.last()));
    }
}

/// A record is what its encoding decodes to.
pub proof fn lemma_decode<R: Record>(r: R, bytes: Seq<u8>)
    requires
        r.to_bytes() == bytes,
    ensures
        R::from_bytes(bytes) == r,
{
    r.lemma_size();
    R::lemma_from_bytes(bytes);
    R::from_bytes(bytes).lemma_injective(&r);
}

/// The table of `count` records that `bytes` encode.
pub open spec fn decode_table<R: Record>(bytes: Seq<u8>, count: nat) -> Seq<R>
    decreases count,
{
    if count == 0 {
        Seq::empty()
    } else {
        decode_table::<R>(bytes, (count - 1) as nat).push(
            R::from_bytes(
                bytes.subrange((count - 1) * R::spec_size(), (count * R::spec_size()) as int),
            ),
        )
    }
}

/// The first `count` records' worth of bytes encode a table of `count` records.
pub proof fn lemma_decode_table_bytes<R: Record>(bytes: Seq<u8>, count: nat)
    requires
        count * R::spec_size() <= bytes.len(),
    ensures
        decode_table::<R>(bytes, count).len() == count,
        table_bytes(decode_table::<R>(bytes, count)) == bytes.subrange(
            0,
            (count * R::spec_size()) as int,
        ),
    decreases count,
{
    let n = R::spec_size() as int;
    if count == 0 {
        assert(0 * n == 0) by (nonlinear_arith);
        assert(table_bytes(decode_table::<R>(bytes, count)) =~= bytes.subrange(0, 0));
    } else {
        assert(0 <= (count - 1) * n && (count - 1) * n + n == count * n) by (nonlinear_arith)
            requires
                count >= 1,
                n >= 0,
        ;
        lemma_decode_table_bytes::<R>(bytes, (count - 1) as nat);
        let last = bytes.subrange((count - 1) * n, count * n);
        R::lemma_from_bytes(last);
        lemma_table_push(decode_table::<R>(bytes, (count - 1) as nat), R::from_bytes(last));
        lemma_join(bytes, 0, (count - 1) * n, count * n);
    }
}

/// A table is what its encoding decodes to.
pub proof fn lemma_decode_table<R: Record>(items: Seq<R>, bytes: Seq<u8>)
    requires
        table_bytes(items) == bytes,
    ensures
        decode_table::<R>(bytes, items.len()) == items,
{
    lemma_table_len(items);
    lemma_decode_table_bytes::<R>(bytes, items.len());
    assert(bytes.subrange(0, bytes.len() as int) =~= bytes);
    lemma_table_injective(decode_table::<R>(bytes, items.len()), items);
}

/// Record `i` of a decoded table is what the bytes at `i` times the record
/// size decode to.
pub proof fn lemma_decode_table_entry<R: Record>(bytes: Seq<u8>, count: nat, i: int)
    requires
        0 <= i < count,
    ensures
        decode_table::<R>(bytes, count).len() == count,
        decode_table::<R>(bytes, count)[i] == R::from_bytes(
            bytes.subrange(i * R::spec_size(), (i + 1) * R::spec_size()),
        ),
    decreases count,
{
    lemma_decode_table_len::<R>(bytes, count);
    if i < count - 1 {
        lemma_decode_table_entry::<R>(bytes, (count - 1) as nat, i);
    } else {
        assert((count - 1) * R::spec_size() == i * R::spec_size());
        assert((count * R::spec_size()) as int == (i + 1) * R::spec_size()) by (nonlinear_arith)
            requires
                i + 1 == count,
        ;
    }
}

/// A decoded table has as many records as were asked for.
pub proof fn lemma_decode_table_len<R: Record>(bytes: Seq<u8>, count: nat)
    ensures
        decode_table::<R>(bytes, count).len() == count,
    decreases count,
{
    if count > 0 {
        lemma_decode_table_len::<R>(bytes, (count - 1) as nat);
    }
}

/// A table inside a byte string that was checked to hold it: nothing is
/// copied, and a record is decoded when it is asked for.
pub struct Table<'a, R: Record> {
    bytes: &'a [u8],
    count: usize,
    record: core::marker::PhantomData<R>,
}

impl<'a, R: Record> View for Table<'a, R> {
    type V = Seq<R>;

    closed spec fn view(&self) -> Seq<R> {
        decode_table::<R>(self.bytes@, self.count as nat)
    }
}

impl<'a, R: Record> Table<'a, R> {
    /// The bytes of a table are as many as its records take.
    #[verifier::type_invariant]
    spec fn well_formed(&self) -> bool {
        self.bytes@.len() == self.count * R::spec_size()
    }

    /// The table of `count` records whose encoding is `bytes`.
    pub fn new(bytes: &'a [u8], count: usize) -> (t: Table<'a, R>)
        requires
            bytes@.len() == count * R::spec_size(),
        ensures
            t@ == decode_table::<R>(bytes@, count as nat),
    {
        Table { bytes, count, record: core::marker::PhantomData }
    }

    /// The number of records.
    pub fn len(&self) -> (n: usize)
        ensures
            n == self@.len(),
    {
        proof {
            lemma_decode_table_len::<R>(self.bytes@, self.count as nat);
        }
        self.count
    }

    /// Whether the table has no record.
    pub fn is_empty(&self) -> (r: bool)
        ensures
            r == (self@.len() == 0),
    {
        proof {
            lemma_decode_table_len::<R>(self.bytes@, self.count as nat);
        }
        self.count == 0
    }

    /// Record `i`, if the table has one.
    pub fn get(&self, i: usize) -> (r: Option<R>)
        ensures
            r == (if i < self@.len() {
                Some(self@[i as int])
            } else {
                None
            }),
    {
        proof {
            use_type_invariant(self);
            lemma_decode_table_len::<R>(self.bytes@, self.count as nat);
        }
        if i >= self.count {
            return None;
        }
        let size = R::size();
        proof {
            assert(self.bytes.len() == self.bytes@.len());
            assert(0 <= i * size && (i + 1) * size == i * size + size && (i + 1) * size
                <= self.count * size) by (nonlinear_arith)
                requires
                    0 <= i < self.count,
                    size > 0,
            ;
            lemma_decode_table_entry::<R>(self.bytes@, self.count as nat, i as int);
        }
        let r = R::read(self.bytes, i * size);
        proof {
            lemma_decode(r, self.bytes@.subrange(i * size, (i + 1) * size));
        }
        Some(r)
    }

    /// All records, decoded.
    pub fn to_vec(&self) -> (v: Vec<R>)
        ensures
            v@ == self@,
    {
        proof {
            use_type_invariant(self);
            assert(self.bytes.len() == self.bytes@.len());
        }
        let v = read_table::<R>(self.bytes, 0, self.count);
        proof {
            assert(self.bytes@.subrange(0, self.count * R::spec_size()) =~= self.bytes@);
            lemma_decode_table(v@, self.bytes@);
        }
        v
    }
}

/// Appends the encoding of a table to `out`.
pub fn write_table<R: Record>(items: &Vec<R>, out: &mut Vec<u8>)
    ensures
        final(out)@ == old(out)@ + table_bytes(items@),
{
    let mut i: usize = 0;
    assert(items@.subrange(0, 0) =~= Seq::<R>::empty());
    assert(out@ =~= old(out)@ + table_bytes(items@.subrange(0, 0)));
    while i < items.len()
        invariant
            i <= items.len(),
            out@ == old(out)@ + table_bytes(items@.subrange(0, i as int)),
        decreases items.len() - i,
    {
        let ghost before = out@;
        items[i].write(out);
        proof {
            lemma_table_push(items@.subrange(0, i as int), items@[i as int]);
            assert(items@.subrange(0, i as int).push(items@[i as int]) =~= items@.subrange(
                0,
                i + 1,
            ));
            assert(out@ =~= old(out)@ + table_bytes(items@.subrange(0, i + 1)));
        }
        i = i + 1;
    }
    assert(items@.subrange(0, i as int) =~= items@);
}

/// Decodes the table of `count` records whose encoding starts at `off`.
pub fn read_table<R: Record>(data: &[u8], off: usize, count: usize) -> (v: Vec<R>)
    requires
        off + count * R::spec_size() <= data@.len(),
    ensures
        v@.len() == count,
        table_bytes(v@) == data@.subrange(off as int, off + count * R::spec_size()),
{
    let size = R::size();
    let mut v: Vec<R> = Vec::new();
    let mut pos: usize = off;
    let mut i: usize = 0;
    proof {
        assert(data.len() == data@.len());
        assert(0 * R::spec_size() == 0) by (nonlinear_arith);
        assert(table_bytes(v@) =~= data@.subrange(off as int, off as int));
    }
    while i < count
        invariant
            i <= count,
            size == R::spec_size(),
            size > 0,
            off + count * R::spec_size() <= data@.len() <= usize::MAX,
            pos == off + i * R::spec_size(),
            v@.len() == i,
            table_bytes(v@) == data@.subrange(off as int, pos as int),
        decreases count - i,
    {
        proof {
            assert(i * R::spec_size() + R::spec_size() == (i + 1) * R::spec_size()
                && (i + 1) * R::spec_size() <= count * R::spec_size()) by (nonlinear_arith)
                requires
                    i < count,
                    R::spec_size() > 0,
            ;
        }
        let r = R::read(data, pos);
        proof {
            lemma_table_push(v@, r);
            lemma_join(data@, off as int, pos as int, pos + size);
        }
        v.push(r);
        pos = pos + size;
        i = i + 1;
    }
    v
}

} // verus!
