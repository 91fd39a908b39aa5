//! Arrays of `Readable` elements: `Vec`, which reads its elements eagerly, and
//! `RoArray`, which keeps the bytes and reads an element when asked for it.
use vstd::prelude::*;
use crate::endian::Endianness;
use crate::reader::{Readable, ReadError, SliceReader};
use crate::writer::{RoundTrip, VecWriter, Writable};

verus! {

/// Reading `count` elements one after the other: their values and the bytes
/// that they take together.
pub open spec fn spec_read_many<'a, E: Endianness, T: Readable<'a, E>>(
    data: Seq<u8>,
    count: nat,
    args: T::Args,
) -> Option<(Seq<<T as DeepView>::V>, nat)>
    decreases count,
{
    if count == 0 {
        Some((Seq::empty(), 0nat))
    } else {
        match spec_read_many::<'a, E, T>(data, (count - 1) as nat, args) {
            Some((vs, m)) => match T::spec_read(data.skip(m as int), args) {
                Some((v, k)) => Some((vs.push(v), m + k)),
                None => None,
            },
            None => None,
        }
    }
}

/// The total size of a sequence of values.
pub open spec fn spec_sizes<'a, E: Endianness, T: Readable<'a, E>>(
    vs: Seq<<T as DeepView>::V>,
) -> nat
    decreases vs.len(),
{
    if vs.len() == 0 {
        0
    } else {
        spec_sizes::<'a, E, T>(vs.drop_last()) + T::spec_size(vs.last())
    }
}

/// The bytes that a sequence of values is written as, one after the other.
pub open spec fn spec_write_many<E: Endianness, T: Writable<E>>(vs: Seq<<T as DeepView>::V>) -> Seq<
    u8,
>
    decreases vs.len(),
{
    if vs.len() == 0 {
        Seq::empty()
    } else {
        spec_write_many::<E, T>(vs.drop_last()) + T::spec_write(vs.last())
    }
}

/// Reading many elements takes their total size, and no more bytes than there are.
pub proof fn lemma_read_many_size<'a, E: Endianness, T: Readable<'a, E>>(
    data: Seq<u8>,
    count: nat,
    args: T::Args,
)
    ensures
        spec_read_many::<'a, E, T>(data, count, args) matches Some((vs, n)) ==> n <= data.len()
            && n == spec_sizes::<'a, E, T>(vs) && vs.len() == count,
    decreases count,
{
    if count > 0 {
        lemma_read_many_size::<'a, E, T>(data, (count - 1) as nat, args);
        if let Some((vs, m)) = spec_read_many::<'a, E, T>(data, (count - 1) as nat, args) {
            T::lemma_read_size(data.skip(m as int), args);
            if let Some((v, k)) = T::spec_read(data.skip(m as int), args) {
                assert(vs.push(v).drop_last() =~= vs);
            }
        }
    }
}

/// Once reading fails at some element, reading more elements fails too.
pub proof fn lemma_read_many_fails_on<'a, E: Endianness, T: Readable<'a, E>>(
    data: Seq<u8>,
    i: nat,
    count: nat,
    args: T::Args,
)
    requires
        i <= count,
        spec_read_many::<'a, E, T>(data, i, args) is None,
    ensures
        spec_read_many::<'a, E, T>(data, count, args) is None,
    decreases count - i,
{
    if i < count {
        lemma_read_many_fails_on::<'a, E, T>(data, i, (count - 1) as nat, args);
    }
}

/// Reading many elements depends only on the bytes that they take.
pub proof fn lemma_read_many_prefix<'a, E: Endianness, T: Readable<'a, E>>(
    data: Seq<u8>,
    count: nat,
    args: T::Args,
    more: Seq<u8>,
)
    ensures
        spec_read_many::<'a, E, T>(data, count, args) matches Some((vs, n)) ==> n <= data.len()
            && spec_read_many::<'a, E, T>(data.take(n as int) + more, count, args) == Some(
            (vs, n),
        ),
    decreases count,
{
    lemma_read_many_size::<'a, E, T>(data, count, args);
    if count > 0 {
        if let Some((vs, n)) = spec_read_many::<'a, E, T>(data, count, args) {
            let prev = spec_read_many::<'a, E, T>(data, (count - 1) as nat, args);
            let (ws, m) = prev.unwrap();
            let (v, k) = T::spec_read(data.skip(m as int), args).unwrap();
            T::lemma_read_size(data.skip(m as int), args);
            let d2 = data.take(n as int) + more;
            // the first count - 1 elements read the same from the shorter input
            lemma_read_many_prefix::<'a, E, T>(data, (count - 1) as nat, args, data.skip(m as int).take(k as int) + more);
            assert(data.take(m as int) + (data.skip(m as int).take(k as int) + more) =~= d2);
            // and so does the last one
            T::lemma_read_prefix(data.skip(m as int), args, more);
            assert(d2.skip(m as int) =~= data.skip(m as int).take(k as int) + more);
        }
    }
}

/// Reading `a + b` elements reads `a` of them and then `b` more from where the
/// first `a` end.
pub proof fn lemma_read_many_split<'a, E: Endianness, T: Readable<'a, E>>(
    data: Seq<u8>,
    a: nat,
    b: nat,
    args: T::Args,
)
    requires
        spec_read_many::<'a, E, T>(data, a + b, args) is Some,
    ensures
        spec_read_many::<'a, E, T>(data, a, args) matches Some((vs, m)) && spec_read_many::<
            'a,
            E,
            T,
        >(data.skip(m as int), b, args) matches Some((ws, k)) && spec_read_many::<'a, E, T>(
            data,
            a + b,
            args,
        ) == Some((vs + ws, m + k)),
    decreases b,
{
    lemma_read_many_size::<'a, E, T>(data, a, args);
    if b == 0 {
        let (vs, m) = spec_read_many::<'a, E, T>(data, a, args).unwrap();
        assert(vs + Seq::<<T as DeepView>::V>::empty() =~= vs);
    } else {
        let c = (a + b - 1) as nat;
        assert(c + 1 == a + b);
        if spec_read_many::<'a, E, T>(data, c, args) is None {
            lemma_read_many_fails_on::<'a, E, T>(data, c, a + b, args);
        }
        lemma_read_many_split::<'a, E, T>(data, a, (b - 1) as nat, args);
        let (vs, m) = spec_read_many::<'a, E, T>(data, a, args).unwrap();
        let (ws, k) = spec_read_many::<'a, E, T>(data.skip(m as int), (b - 1) as nat, args).unwrap();
        lemma_read_many_size::<'a, E, T>(data.skip(m as int), (b - 1) as nat, args);
        assert(data.skip(m as int).skip(k as int) =~= data.skip((m + k) as int));
        let (w, j) = T::spec_read(data.skip((m + k) as int), args).unwrap();
        assert((vs + ws).push(w) =~= vs + ws.push(w));
    }
}

/// The total size is additive over concatenation.
pub proof fn lemma_sizes_append<'a, E: Endianness, T: Readable<'a, E>>(
    vs: Seq<<T as DeepView>::V>,
    ws: Seq<<T as DeepView>::V>,
)
    ensures
        spec_sizes::<'a, E, T>(vs + ws) == spec_sizes::<'a, E, T>(vs) + spec_sizes::<'a, E, T>(ws),
    decreases ws.len(),
{
    if ws.len() == 0 {
        assert(vs + ws =~= vs);
    } else {
        lemma_sizes_append::<'a, E, T>(vs, ws.drop_last());
        assert((vs + ws).drop_last() =~= vs + ws.drop_last());
    }
}

/// Where every element has the fixed size `k`, the total is the count times `k`.
pub proof fn lemma_sizes_fixed<'a, E: Endianness, T: Readable<'a, E>>(
    vs: Seq<<T as DeepView>::V>,
    k: nat,
)
    requires
        T::spec_fixed_size() == Some(k),
    ensures
        spec_sizes::<'a, E, T>(vs) == vs.len() * k,
    decreases vs.len(),
{
    if vs.len() > 0 {
        lemma_sizes_fixed::<'a, E, T>(vs.drop_last(), k);
        T::lemma_fixed_size(vs.last());
        assert((vs.len() - 1) * k + k == vs.len() * k) by (nonlinear_arith);
    }
}

/// Each element's size is at most the total, and so is every prefix's.
pub proof fn lemma_sizes_prefix<'a, E: Endianness, T: Readable<'a, E>>(
    vs: Seq<<T as DeepView>::V>,
    i: int,
)
    requires
        0 <= i <= vs.len(),
    ensures
        spec_sizes::<'a, E, T>(vs.take(i)) <= spec_sizes::<'a, E, T>(vs),
        i < vs.len() ==> spec_sizes::<'a, E, T>(vs.take(i + 1)) == spec_sizes::<'a, E, T>(
            vs.take(i),
        ) + T::spec_size(vs[i]),
{
    lemma_sizes_append::<'a, E, T>(vs.take(i), vs.skip(i));
    assert(vs.take(i) + vs.skip(i) =~= vs);
    if i < vs.len() {
        assert(vs.take(i + 1).drop_last() =~= vs.take(i));
    }
}

/// The written bytes of a concatenation are the concatenation of the written bytes.
pub proof fn lemma_write_many_append<E: Endianness, T: Writable<E>>(
    vs: Seq<<T as DeepView>::V>,
    ws: Seq<<T as DeepView>::V>,
)
    ensures
        spec_write_many::<E, T>(vs + ws) == spec_write_many::<E, T>(vs) + spec_write_many::<E, T>(
            ws,
        ),
    decreases ws.len(),
{
    if ws.len() == 0 {
        assert(vs + ws =~= vs);
        assert(spec_write_many::<E, T>(vs) + Seq::<u8>::empty() =~= spec_write_many::<E, T>(vs));
    } else {
        lemma_write_many_append::<E, T>(vs, ws.drop_last());
        assert((vs + ws).drop_last() =~= vs + ws.drop_last());
        assert(spec_write_many::<E, T>(vs) + spec_write_many::<E, T>(ws.drop_last()) + T::spec_write(
            ws.last(),
        ) =~= spec_write_many::<E, T>(vs) + (spec_write_many::<E, T>(ws.drop_last())
            + T::spec_write(ws.last())));
    }
}

impl<'a, E: Endianness, T: Readable<'a, E>> Readable<'a, E> for Vec<T> where T::Args: Copy {
    type Args = (usize, T::Args);

    open spec fn spec_read(data: Seq<u8>, args: (usize, T::Args)) -> Option<
        (Seq<<T as DeepView>::V>, nat),
    > {
        spec_read_many::<'a, E, T>(data, args.0 as nat, args.1)
    }

    open spec fn spec_size(v: Seq<<T as DeepView>::V>) -> nat {
        spec_sizes::<'a, E, T>(v)
    }

    open spec fn spec_fixed_size() -> Option<nat> {
        None
    }

    proof fn lemma_read_size(data: Seq<u8>, args: (usize, T::Args)) {
        lemma_read_many_size::<'a, E, T>(data, args.0 as nat, args.1);
    }

    proof fn lemma_read_prefix(data: Seq<u8>, args: (usize, T::Args), more: Seq<u8>) {
        lemma_read_many_prefix::<'a, E, T>(data, args.0 as nat, args.1, more);
    }

    proof fn lemma_fixed_size(v: Seq<<T as DeepView>::V>) {
    }

    fn read_from(reader: &mut SliceReader<'a, E>, args: (usize, T::Args)) -> (res: Result<
        Vec<T>,
        ReadError,
    >) {
        let (len, targs) = args;
        let ghost data = reader@;
        let mut out: Vec<T> = Vec::new();
        let mut i: usize = 0;
        let ghost mut consumed: nat = 0;
        while i < len
            invariant
                0 <= i <= len,
                data == old(reader)@,
                args == (len, targs),
                spec_read_many::<'a, E, T>(data, i as nat, targs) == Some(
                    (out.deep_view(), consumed),
                ),
                consumed <= data.len(),
                reader@ == data.skip(consumed as int),
            decreases len - i,
        {
            let ghost old_out = out.deep_view();
            match T::read_from(reader, targs) {
                Ok(v) => {
                    proof {
                        T::lemma_read_size(data.skip(consumed as int), targs);
                        let (_, k) = T::spec_read(data.skip(consumed as int), targs).unwrap();
                        assert(data.skip(consumed as int).skip(k as int) =~= data.skip(
                            (consumed + k) as int,
                        ));
                        consumed = consumed + k;
                    }
                    out.push(v);
                    i = i + 1;
                    assert(out.deep_view() =~= old_out.push(v.deep_view()));
                },
                Err(e) => {
                    proof {
                        lemma_read_many_fails_on::<'a, E, T>(
                            data,
                            (i + 1) as nat,
                            len as nat,
                            targs,
                        );
                    }
                    return Err(e);
                },
            }
        }
        Ok(out)
    }

    fn size(&self) -> (r: Result<usize, ReadError>) {
        let ghost vs = self.deep_view();
        if let Some(k) = T::fixed_size() {
            proof {
                lemma_sizes_fixed::<'a, E, T>(vs, k as nat);
            }
            match k.checked_mul(self.len()) {
                Some(s) => {
                    assert(s == k * self.len());
                    assert(self.len() * k == k * self.len()) by (nonlinear_arith);
                    Ok(s)
                },
                None => {
                    assert(self.len() * k == k * self.len()) by (nonlinear_arith);
                    Err(ReadError::SizeOverflow)
                },
            }
        } else {
            let mut total: usize = 0;
            let mut i: usize = 0;
            while i < self.len()
                invariant
                    0 <= i <= self.len(),
                    vs == self.deep_view(),
                    total == spec_sizes::<'a, E, T>(vs.take(i as int)),
                decreases self.len() - i,
            {
                proof {
                    lemma_sizes_prefix::<'a, E, T>(vs, i as int);
                    lemma_sizes_prefix::<'a, E, T>(vs, i + 1);
                }
                let s = match self[i].size() {
                    Ok(s) => s,
                    Err(e) => {
                        return Err(e);
                    },
                };
                match total.checked_add(s) {
                    Some(t) => {
                        total = t;
                    },
                    None => {
                        return Err(ReadError::SizeOverflow);
                    },
                }
                i = i + 1;
            }
            assert(vs.take(i as int) =~= vs);
            Ok(total)
        }
    }

    fn fixed_size() -> (r: Option<usize>) {
        None
    }
}

impl<E: Endianness, T: Writable<E>> Writable<E> for Vec<T> {
    open spec fn spec_write(v: Seq<<T as DeepView>::V>) -> Seq<u8> {
        spec_write_many::<E, T>(v)
    }

    fn write_to(&self, writer: &mut VecWriter<E>) -> (r: u64) {
        let ghost vs = self.deep_view();
        let mut total: u64 = 0;
        let mut i: usize = 0;
        while i < self.len()
            invariant
                0 <= i <= self.len(),
                vs == self.deep_view(),
                writer@ == old(writer)@ + spec_write_many::<E, T>(vs.take(i as int)),
                total == spec_write_many::<E, T>(vs.take(i as int)).len(),
                old(writer)@.len() + spec_write_many::<E, T>(vs).len() <= usize::MAX,
            decreases self.len() - i,
        {
            proof {
                lemma_write_many_append::<E, T>(vs.take(i + 1), vs.skip(i + 1));
                assert(vs.take(i + 1) + vs.skip(i + 1) =~= vs);
                assert(vs.take(i + 1).drop_last() =~= vs.take(i as int));
            }
            let n = self[i].write_to(writer);
            total = total + n;
            i = i + 1;
            assert(writer@ =~= old(writer)@ + spec_write_many::<E, T>(vs.take(i as int)));
        }
        assert(vs.take(i as int) =~= vs);
        total
    }
}

impl<'a, E: Endianness, T: RoundTrip<'a, E>> RoundTrip<'a, E> for Vec<T> where T::Args: Copy {
    /// Every element reads back, and all of them with the same arguments.
    open spec fn spec_round_trips(v: Seq<<T as DeepView>::V>) -> bool {
        &&& v.len() <= usize::MAX
        &&& forall|i: int| 0 <= i < v.len() ==> #[trigger] T::spec_round_trips(v[i])
        &&& forall|i: int|
            0 <= i < v.len() ==> #[trigger] T::spec_args_for(v[i]) == T::spec_args_for(v[0])
    }

    open spec fn spec_args_for(v: Seq<<T as DeepView>::V>) -> (usize, T::Args) {
        (
            v.len() as usize,
            if v.len() > 0 {
                T::spec_args_for(v[0])
            } else {
                arbitrary()
            },
        )
    }

    proof fn lemma_write_then_read(v: Seq<<T as DeepView>::V>, rest: Seq<u8>) {
        let a = Self::spec_args_for(v).1;
        lemma_write_many_read_back::<'a, E, T>(v, a, rest);
    }
}

/// Written elements read back, whatever follows them.
pub proof fn lemma_write_many_read_back<'a, E: Endianness, T: RoundTrip<'a, E>>(
    vs: Seq<<T as DeepView>::V>,
    a: T::Args,
    rest: Seq<u8>,
)
    requires
        forall|i: int| 0 <= i < vs.len() ==> #[trigger] T::spec_round_trips(vs[i]),
        forall|i: int| 0 <= i < vs.len() ==> #[trigger] T::spec_args_for(vs[i]) == a,
    ensures
        spec_read_many::<'a, E, T>(spec_write_many::<E, T>(vs) + rest, vs.len(), a) == Some(
            (vs, spec_write_many::<E, T>(vs).len()),
        ),
        spec_write_many::<E, T>(vs).len() == spec_sizes::<'a, E, T>(vs),
    decreases vs.len(),
{
    if vs.len() == 0 {
        assert(vs =~= Seq::<<T as DeepView>::V>::empty());
    } else {
        let init = vs.drop_last();
        let last = vs.last();
        assert(T::spec_round_trips(vs[vs.len() - 1]));
        assert(T::spec_args_for(vs[vs.len() - 1]) == a);
        let wl = T::spec_write(last);
        let wi = spec_write_many::<E, T>(init);
        lemma_write_many_read_back::<'a, E, T>(init, a, wl + rest);
        assert(wi + (wl + rest) =~= spec_write_many::<E, T>(vs) + rest);
        T::lemma_write_then_read(last, rest);
        assert((spec_write_many::<E, T>(vs) + rest).skip(wi.len() as int) =~= wl + rest);
        assert(init.push(last) =~= vs);
    }
}

/// A read-only array: the bytes of `length` elements, read one at a time when
/// they are asked for.
pub struct RoArray<'a, E: Endianness, T: Readable<'a, E>> {
    t_args: T::Args,
    length: usize,
    data_start: SliceReader<'a, E>,
}

impl<'a, E: Endianness, T: Readable<'a, E>> RoArray<'a, E, T> {
    /// The bytes of the elements.
    pub closed spec fn bytes(&self) -> Seq<u8> {
        self.data_start@
    }

    /// The arguments that each element is read with.
    pub closed spec fn args(&self) -> T::Args {
        self.t_args
    }

    pub closed spec fn length(&self) -> nat {
        self.length as nat
    }

    /// The elements that the bytes hold.
    pub open spec fn elements(&self) -> Seq<<T as DeepView>::V> {
        match spec_read_many::<'a, E, T>(self.bytes(), self.length(), self.args()) {
            Some((vs, _)) => vs,
            None => Seq::empty(),
        }
    }

    /// The bytes are those of `length` elements: for an element type with a
    /// fixed size, `length` times that size; otherwise exactly what reading
    /// `length` elements takes.
    #[verifier::type_invariant]
    pub closed spec fn wf(&self) -> bool {
        Self::holds_exactly(self.data_start@, self.length as nat, self.t_args)
    }

    /// Whether `bytes` are those of `length` elements.
    pub open spec fn holds_exactly(bytes: Seq<u8>, length: nat, args: T::Args) -> bool {
        match T::spec_fixed_size() {
            Some(k) => bytes.len() == length * k,
            None => spec_read_many::<'a, E, T>(bytes, length, args) matches Some((_, n)) && n
                == bytes.len(),
        }
    }

    /// The bytes that `length` elements take at the start of `data`, where
    /// they are there.
    pub open spec fn spec_byte_len(data: Seq<u8>, length: nat, args: T::Args) -> Option<nat> {
        match T::spec_fixed_size() {
            Some(k) => if length * k <= data.len() {
                Some(length * k)
            } else {
                None
            },
            None => match spec_read_many::<'a, E, T>(data, length, args) {
                Some((_, n)) => Some(n),
                None => None,
            },
        }
    }

    proof fn lemma_wf(&self)
        requires
            self.wf(),
        ensures
            Self::holds_exactly(self.bytes(), self.length(), self.args()),
            spec_read_many::<'a, E, T>(self.bytes(), self.length(), self.args()) is Some ==> (
            self.elements().len() == self.length() && spec_sizes::<'a, E, T>(self.elements())
                == self.bytes().len()),
    {
        lemma_read_many_size::<'a, E, T>(self.bytes(), self.length(), self.args());
        if let Some((vs, n)) = spec_read_many::<'a, E, T>(self.bytes(), self.length(), self.args()) {
            if let Some(k) = T::spec_fixed_size() {
                lemma_sizes_fixed::<'a, E, T>(vs, k);
            }
        }
    }

    pub fn len(&self) -> (r: usize)
        ensures
            r == self.length(),
    {
        self.length
    }

    /// The reader over the elements' bytes.
    pub fn data_start(&self) -> (r: &SliceReader<'a, E>)
        ensures
            r@ == self.bytes(),
    {
        &self.data_start
    }
}

impl<'a, E: Endianness, T: Readable<'a, E>> RoArray<'a, E, T> where T::Args: Copy {
    /// Reads an array of `args.0` elements, each read with `args.1`: takes
    /// the bytes they span.
    pub fn read_array(reader: &mut SliceReader<'a, E>, args: (usize, T::Args)) -> (res: Result<Self, ReadError>)
        ensures
            match Self::spec_byte_len(old(reader)@, args.0 as nat, args.1) {
                Some(n) => (res matches Ok(r) && r.bytes() == old(reader)@.take(n as int) && r.length()
                    == args.0 && r.args() == args.1) && final(reader)@ == old(reader)@.skip(n as int),
                None => res is Err,
            },
    {
        let (length, t_args) = args;
        let ghost data = reader@;
        let _dlen = reader.len();
        proof {
            lemma_read_many_size::<'a, E, T>(data, length as nat, t_args);
        }
        let size = match T::fixed_size() {
            Some(k) => {
                proof {
                    assert(length * k == k * length) by (nonlinear_arith);
                }
                match k.checked_mul(length) {
                    Some(s) => s,
                    None => {
                        return Err(ReadError::SizeOverflow);
                    },
                }
            },
            None => {
                let mut it: RoArrayIter<'a, E, T> = RoArrayIter {
                    t_args,
                    length,
                    data_start: reader.clone(),
                };
                match it.total_size() {
                    Ok(s) => s,
                    Err(e) => {
                        return Err(e);
                    },
                }
            },
        };
        let data_start = reader.truncate_clone_to(size)?;
        proof {
            if T::spec_fixed_size() is None {
                lemma_read_many_prefix::<'a, E, T>(data, length as nat, t_args, Seq::empty());
                let n = size as nat;
                assert(data.take(n as int) + Seq::<u8>::empty() =~= data.take(n as int));
            }
        }
        let array = RoArray { t_args, length, data_start };
        reader.advance(size)?;
        Ok(array)
    }

    /// The arguments that each element is read with.
    pub(crate) fn element_args(&self) -> (r: T::Args)
        ensures
            r == self.args(),
    {
        self.t_args
    }

    pub fn iter(&self) -> (r: RoArrayIter<'a, E, T>)
        ensures
            r.bytes() == self.bytes(),
            r.remaining() == self.length(),
            r.args() == self.args(),
    {
        RoArrayIter { t_args: self.t_args, length: self.length, data_start: self.data_start.clone() }
    }

    /// Splits the array in two at `at`: `self` keeps the first `at` elements
    /// and the result holds the rest.
    pub fn split_off(&mut self, at: usize) -> (r: Result<RoArray<'a, E, T>, ReadError>)
        requires
            at <= old(self).length(),
        ensures
            r matches Ok(right) && {
                &&& final(self).length() == at
                &&& right.length() == old(self).length() - at
                &&& final(self).args() == old(self).args()
                &&& right.args() == old(self).args()
                &&& final(self).bytes() + right.bytes() == old(self).bytes()
                &&& Self::spec_byte_len(old(self).bytes(), at as nat, old(self).args()) == Some(
                    final(self).bytes().len(),
                )
                &&& spec_read_many::<'a, E, T>(
                    old(self).bytes(),
                    old(self).length(),
                    old(self).args(),
                ) is Some ==> {
                    &&& final(self).elements() == old(self).elements().take(at as int)
                    &&& right.elements() == old(self).elements().skip(at as int)
                }
            },
    {
        proof {
            use_type_invariant(&*self);
            self.lemma_wf();
        }
        let ghost bytes = self.bytes();
        let ghost total = self.length as nat;
        let ghost args = self.t_args;
        let _blen = self.data_start.len();
        let right_len = self.length - at;
        let new_size = match T::fixed_size() {
            Some(k) => {
                proof {
                    assert(at * k <= total * k) by (nonlinear_arith)
                        requires
                            at <= total,
                    ;
                }
                k * at
            },
            None => {
                proof {
                    lemma_read_many_split::<'a, E, T>(bytes, at as nat, right_len as nat, args);
                }
                let mut it: RoArrayIter<'a, E, T> = RoArrayIter {
                    t_args: self.t_args,
                    length: at,
                    data_start: self.data_start.clone(),
                };
                match it.total_size() {
                    Ok(s) => s,
                    Err(e) => {
                        return Err(e);
                    },
                }
            },
        };
        let right_start = match self.data_start.advance_clone(new_size) {
            Ok(r) => r,
            Err(e) => {
                return Err(e);
            },
        };
        let left_start = match self.data_start.truncate_clone_to(new_size) {
            Ok(r) => r,
            Err(e) => {
                return Err(e);
            },
        };
        let ghost m = new_size as nat;
        proof {
            assert(bytes.take(m as int) + bytes.skip(m as int) =~= bytes);
            if let Some(k) = T::spec_fixed_size() {
                assert(total * k - at * k == (total - at) * k) by (nonlinear_arith);
                assert(k * at == at * k) by (nonlinear_arith);
            }
            if T::spec_fixed_size() is None || spec_read_many::<'a, E, T>(bytes, total, args) is Some {
                lemma_read_many_split::<'a, E, T>(bytes, at as nat, right_len as nat, args);
                lemma_read_many_size::<'a, E, T>(bytes, at as nat, args);
                let (vs, m2) = spec_read_many::<'a, E, T>(bytes, at as nat, args).unwrap();
                if let Some(k) = T::spec_fixed_size() {
                    lemma_sizes_fixed::<'a, E, T>(vs, k);
                    assert(k * at == at * k) by (nonlinear_arith);
                }
                assert(m2 == m);
                lemma_read_many_prefix::<'a, E, T>(bytes, at as nat, args, Seq::empty());
                assert(bytes.take(m as int) + Seq::<u8>::empty() =~= bytes.take(m as int));
                lemma_read_many_size::<'a, E, T>(bytes.skip(m as int), right_len as nat, args);
                lemma_read_many_size::<'a, E, T>(bytes, total, args);
                let all = spec_read_many::<'a, E, T>(bytes, total, args).unwrap().0;
                let ws = spec_read_many::<'a, E, T>(bytes.skip(m as int), right_len as nat, args).unwrap().0;
                assert(all == vs + ws);
                assert((vs + ws).take(at as int) =~= vs);
                assert((vs + ws).skip(at as int) =~= ws);
            }
        }
        let res = RoArray { t_args: self.t_args, length: right_len, data_start: right_start };
        *self = RoArray { t_args: self.t_args, length: at, data_start: left_start };
        Ok(res)
    }

    /// The element at `at`, for an element type with a fixed size `k`: the
    /// element read from offset `at * k`; `None` past the end.
    pub fn get(&self, at: usize) -> (r: Result<Option<T>, ReadError>)
        requires
            T::spec_fixed_size() is Some,
        ensures
            at >= self.length() ==> r matches Ok(None),
            at < self.length() ==> match T::spec_read(
                self.bytes().skip(at * T::spec_fixed_size().unwrap()),
                self.args(),
            ) {
                Some((v, _)) => r matches Ok(Some(x)) && x.deep_view() == v,
                None => r is Err,
            },
            at < self.length() && spec_read_many::<'a, E, T>(self.bytes(), self.length(), self.args()) is Some
                ==> (r matches Ok(Some(x)) && x.deep_view() == self.elements()[at as int]),
    {
        proof {
            use_type_invariant(self);
        }
        let fixed_size = match T::fixed_size() {
            Some(k) => k,
            None => {
                return Err(ReadError::SizeOverflow);
            },
        };
        if at >= self.length {
            return Ok(None);
        }
        let ghost bytes = self.bytes();
        let ghost args = self.t_args;
        let ghost len = self.length as nat;
        let _blen = self.data_start.len();
        proof {
            assert(at * fixed_size <= len * fixed_size) by (nonlinear_arith)
                requires
                    at < len,
            ;
        }
        let mut r = self.data_start.advance_clone(at * fixed_size)?;
        let ghost r0 = r@;
        proof {
            if spec_read_many::<'a, E, T>(bytes, len, args) is Some {
                lemma_read_many_split::<'a, E, T>(bytes, at as nat, (len - at) as nat, args);
                lemma_read_many_split::<'a, E, T>(bytes, (at + 1) as nat, (len - at - 1) as nat, args);
                lemma_read_many_split::<'a, E, T>(bytes, at as nat, 1, args);
                lemma_read_many_size::<'a, E, T>(bytes, at as nat, args);
                let (vs, m) = spec_read_many::<'a, E, T>(bytes, at as nat, args).unwrap();
                lemma_sizes_fixed::<'a, E, T>(vs, fixed_size as nat);
                assert(at * fixed_size == fixed_size * at) by (nonlinear_arith);
                assert(bytes.skip(m as int).skip(0) =~= bytes.skip(m as int));
                let all = spec_read_many::<'a, E, T>(bytes, len, args).unwrap().0;
                let (vs1, m1) = spec_read_many::<'a, E, T>(bytes, (at + 1) as nat, args).unwrap();
                let (ws, _) = spec_read_many::<'a, E, T>(bytes.skip(m1 as int), (len - at - 1) as nat, args).unwrap();
                assert(all == vs1 + ws);
                assert(m == vs.len() * fixed_size);
                assert(m == at * fixed_size);
                assert(spec_read_many::<'a, E, T>(bytes, (at + 1) as nat, args) == match spec_read_many::<'a, E, T>(bytes, at as nat, args) {
                    Some((vs, m)) => match T::spec_read(bytes.skip(m as int), args) {
                        Some((v, k)) => Some((vs.push(v), m + k)),
                        None => None,
                    },
                    None => None,
                });
                assert(vs1[at as int] == T::spec_read(bytes.skip(m as int), args).unwrap().0);
                assert(all[at as int] == vs1[at as int]);
                assert(r0 == bytes.skip(m as int));
                assert(self.elements() == all);
            }
        }
        let v = T::read_from(&mut r, self.t_args)?;
        Ok(Some(v))
    }
}

impl<'a, E: Endianness, T: Readable<'a, E>> Clone for RoArray<'a, E, T> where T::Args: Copy {
    fn clone(&self) -> (r: Self)
        ensures
            r.bytes() == self.bytes(),
            r.length() == self.length(),
            r.args() == self.args(),
    {
        proof {
            use_type_invariant(self);
        }
        RoArray { t_args: self.t_args, length: self.length, data_start: self.data_start.clone() }
    }
}

impl<'a, E: Endianness, T: Readable<'a, E>> DeepView for RoArray<'a, E, T> {
    /// The bytes of the elements, their number, and the arguments each is
    /// read with.
    type V = (Seq<u8>, nat, T::Args);

    open spec fn deep_view(&self) -> (Seq<u8>, nat, T::Args) {
        (self.bytes(), self.length(), self.args())
    }
}

/// A cursor over the elements of a `RoArray`, reading one element per call of `next`.
pub struct RoArrayIter<'a, E: Endianness, T: Readable<'a, E>> {
    data_start: SliceReader<'a, E>,
    length: usize,
    t_args: T::Args,
}

impl<'a, E: Endianness, T: Readable<'a, E>> RoArrayIter<'a, E, T> {
    /// The bytes not read yet.
    pub closed spec fn bytes(&self) -> Seq<u8> {
        self.data_start@
    }

    /// How many elements are left.
    pub closed spec fn remaining(&self) -> nat {
        self.length as nat
    }

    pub closed spec fn args(&self) -> T::Args {
        self.t_args
    }

    pub fn len(&self) -> (r: usize)
        ensures
            r == self.remaining(),
    {
        self.length
    }
}

impl<'a, E: Endianness, T: Readable<'a, E>> RoArrayIter<'a, E, T> where T::Args: Copy {
    /// Reads the next element, where one is left.
    pub fn next(&mut self) -> (r: Option<Result<T, ReadError>>)
        ensures
            old(self).remaining() == 0 ==> r is None && *final(self) == *old(self),
            old(self).remaining() > 0 ==> {
                &&& final(self).remaining() == old(self).remaining() - 1
                &&& final(self).args() == old(self).args()
                &&& match T::spec_read(old(self).bytes(), old(self).args()) {
                    Some((v, n)) => (r matches Some(Ok(x)) && x.deep_view() == v) && final(self).bytes()
                        == old(self).bytes().skip(n as int),
                    None => r matches Some(Err(_)),
                }
            },
    {
        if self.length == 0 {
            None
        } else {
            self.length = self.length - 1;
            Some(T::read_from(&mut self.data_start, self.t_args))
        }
    }

    /// The total size of the elements that are left, reading each of them.
    fn total_size(&mut self) -> (r: Result<usize, ReadError>)
        ensures
            match spec_read_many::<'a, E, T>(old(self).bytes(), old(self).remaining(), old(self).args()) {
                Some((_, n)) => r == Ok::<usize, ReadError>(n as usize),
                None => r is Err,
            },
    {
        let ghost data = self.bytes();
        let ghost count = self.remaining();
        let ghost args = self.t_args;
        let mut total: usize = 0;
        let ghost mut i: nat = 0;
        let _dlen = self.data_start.len();
        assert(data.skip(0) =~= data);
        while self.length > 0
            invariant
                data == old(self).bytes(),
                count == old(self).remaining(),
                args == old(self).args(),
                args == self.t_args,
                i + self.length == count,
                spec_read_many::<'a, E, T>(data, i, args) matches Some((_, m)) && m == total,
                self.data_start@ == data.skip(total as int),
                total <= data.len(),
                data.len() == _dlen,
            decreases self.length,
        {
            let ghost m = total as nat;
            self.length = self.length - 1;
            let v = match T::read_from(&mut self.data_start, self.t_args) {
                Ok(v) => v,
                Err(e) => {
                    proof {
                        lemma_read_many_fails_on::<'a, E, T>(data, i + 1, count, args);
                    }
                    return Err(e);
                },
            };
            proof {
                T::lemma_read_size(data.skip(m as int), args);
            }
            let ghost k = T::spec_read(data.skip(m as int), args).unwrap().1;
            let s = match v.size() {
                Ok(s) => s,
                Err(e) => {
                    return Err(e);
                },
            };
            total = total + s;
            proof {
                assert(data.skip(m as int).skip(k as int) =~= data.skip((m + k) as int));
                i = i + 1;
            }
        }
        Ok(total)
    }
}

impl<'a, E: Endianness, T: Readable<'a, E>> Readable<'a, E> for RoArray<'a, E, T> where T::Args: Copy {
    type Args = (usize, T::Args);

    open spec fn spec_read(data: Seq<u8>, args: (usize, T::Args)) -> Option<((Seq<u8>, nat, T::Args), nat)> {
        match RoArray::<'a, E, T>::spec_byte_len(data, args.0 as nat, args.1) {
            Some(n) => Some(((data.take(n as int), args.0 as nat, args.1), n)),
            None => None,
        }
    }

    open spec fn spec_size(v: (Seq<u8>, nat, T::Args)) -> nat {
        v.0.len()
    }

    open spec fn spec_fixed_size() -> Option<nat> {
        None
    }

    proof fn lemma_read_size(data: Seq<u8>, args: (usize, T::Args)) {
        lemma_read_many_size::<'a, E, T>(data, args.0 as nat, args.1);
    }

    proof fn lemma_read_prefix(data: Seq<u8>, args: (usize, T::Args), more: Seq<u8>) {
        lemma_read_many_prefix::<'a, E, T>(data, args.0 as nat, args.1, more);
        if let Some(n) = RoArray::<'a, E, T>::spec_byte_len(data, args.0 as nat, args.1) {
            assert((data.take(n as int) + more).take(n as int) =~= data.take(n as int));
        }
    }

    proof fn lemma_fixed_size(v: (Seq<u8>, nat, T::Args)) {
    }

    fn read_from(reader: &mut SliceReader<'a, E>, args: (usize, T::Args)) -> (res: Result<
        RoArray<'a, E, T>,
        ReadError,
    >) {
        Self::read_array(reader, args)
    }

    fn size(&self) -> (r: Result<usize, ReadError>) {
        Ok(self.data_start.len())
    }

    fn fixed_size() -> (r: Option<usize>) {
        None
    }
}

impl<'a, E: Endianness, T: Readable<'a, E>> Writable<E> for RoArray<'a, E, T> {
    /// An array is written as the bytes that it was read from.
    open spec fn spec_write(v: (Seq<u8>, nat, T::Args)) -> Seq<u8> {
        v.0
    }

    fn write_to(&self, writer: &mut VecWriter<E>) -> (r: u64) {
        let bytes = self.data_start.as_slice();
        writer.write_bytes(bytes);
        bytes.len() as u64
    }
}
} // verus!
