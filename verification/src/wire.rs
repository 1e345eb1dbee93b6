//! The byte form of what a node keeps on disk and sends in snapshots.
//!
//! Every value is written as a run of bytes that says by itself where it ends:
//! an integer as eight bytes, most significant first; a byte string or a text
//! after its length; a list after its count. Reading goes from the front and
//! hands back what is left, so the forms can be chained. For each type the
//! round trip is proved: reading the form of a value gives that value back.
use vstd::prelude::*;
use vstd::slice::*;
use vstd::string::*;
use vstd::utf8::*;

use crate::store::tree::key_lt;

verus! {

/// The eight bytes of `x`, most significant first.
#[verifier::opaque]
pub open spec fn be_bytes(x: u64) -> Seq<u8> {
    let q1 = x / 0x100;
    let q2 = q1 / 0x100;
    let q3 = q2 / 0x100;
    let q4 = q3 / 0x100;
    let q5 = q4 / 0x100;
    let q6 = q5 / 0x100;
    let q7 = q6 / 0x100;
    seq![
        (q7 % 0x100) as u8,
        (q6 % 0x100) as u8,
        (q5 % 0x100) as u8,
        (q4 % 0x100) as u8,
        (q3 % 0x100) as u8,
        (q2 % 0x100) as u8,
        (q1 % 0x100) as u8,
        (x % 0x100) as u8,
    ]
}

/// The number that eight bytes stand for, most significant first.
#[verifier::opaque]
pub open spec fn be_value(s: Seq<u8>) -> int
    recommends
        s.len() == 8,
{
    ((((((s[0] * 0x100 + s[1]) * 0x100 + s[2]) * 0x100 + s[3]) * 0x100 + s[4]) * 0x100 + s[5])
        * 0x100 + s[6]) * 0x100 + s[7]
}

/// Reading the eight bytes of a number gives the number back.
pub proof fn lemma_be_value_of_bytes(x: u64)
    ensures
        be_bytes(x).len() == 8,
        be_value(be_bytes(x)) == x,
{
    reveal(be_bytes);
    reveal(be_value);
    let q1 = x / 0x100;
    let q2 = q1 / 0x100;
    let q3 = q2 / 0x100;
    let q4 = q3 / 0x100;
    let q5 = q4 / 0x100;
    let q6 = q5 / 0x100;
    let q7 = q6 / 0x100;
    assert(q7 < 0x100);
    let s = be_bytes(x);
    assert(s[0] == q7);
    assert(s[0] * 0x100 + s[1] == q6);
    assert(q6 * 0x100 + s[2] == q5);
    assert(q5 * 0x100 + s[3] == q4);
    assert(q4 * 0x100 + s[4] == q3);
    assert(q3 * 0x100 + s[5] == q2);
    assert(q2 * 0x100 + s[6] == q1);
    assert(q1 * 0x100 + s[7] == x);
}

/// Eight bytes are the form of the number they stand for, and of no other.
pub proof fn lemma_be_bytes_of_value(s: Seq<u8>)
    requires
        s.len() == 8,
    ensures
        0 <= be_value(s) <= u64::MAX,
        be_bytes(be_value(s) as u64) == s,
{
    reveal(be_bytes);
    reveal(be_value);
    let v1: int = s[0] as int;
    let v2 = v1 * 0x100 + s[1];
    let v3 = v2 * 0x100 + s[2];
    let v4 = v3 * 0x100 + s[3];
    let v5 = v4 * 0x100 + s[4];
    let v6 = v5 * 0x100 + s[5];
    let v7 = v6 * 0x100 + s[6];
    let v8 = v7 * 0x100 + s[7];
    assert(v8 == be_value(s));
    assert(0 <= v8 <= u64::MAX);
    let x = v8 as u64;
    assert(x / 0x100 == v7 && x % 0x100 == s[7]);
    assert(v7 / 0x100 == v6 && v7 % 0x100 == s[6]);
    assert(v6 / 0x100 == v5 && v6 % 0x100 == s[5]);
    assert(v5 / 0x100 == v4 && v5 % 0x100 == s[4]);
    assert(v4 / 0x100 == v3 && v4 % 0x100 == s[3]);
    assert(v3 / 0x100 == v2 && v3 % 0x100 == s[2]);
    assert(v2 / 0x100 == v1 && v2 % 0x100 == s[1]);
    assert(v1 % 0x100 == s[0]);
    assert(be_bytes(x) =~= s);
}

/// Among keys of eight bytes, dictionary order is the order of the numbers
/// they stand for. This is why a scan of a tree keyed by the bytes of an index
/// walks it in index order.
pub proof fn lemma_key_order_is_value_order(a: Seq<u8>, b: Seq<u8>)
    requires
        a.len() == 8,
        b.len() == 8,
    ensures
        key_lt(a, b) <==> be_value(a) < be_value(b),
        a == b <==> be_value(a) == be_value(b),
{
    lemma_be_bytes_of_value(a);
    lemma_be_bytes_of_value(b);
    reveal(be_value);
    reveal_with_fuel(key_lt, 9);
    let a1 = a.skip(1);
    let a2 = a1.skip(1);
    let a3 = a2.skip(1);
    let a4 = a3.skip(1);
    let a5 = a4.skip(1);
    let a6 = a5.skip(1);
    let a7 = a6.skip(1);
    let b1 = b.skip(1);
    let b2 = b1.skip(1);
    let b3 = b2.skip(1);
    let b4 = b3.skip(1);
    let b5 = b4.skip(1);
    let b6 = b5.skip(1);
    let b7 = b6.skip(1);
    assert(a1[0] == a[1] && a2[0] == a[2] && a3[0] == a[3] && a4[0] == a[4] && a5[0] == a[5]
        && a6[0] == a[6] && a7[0] == a[7]);
    assert(b1[0] == b[1] && b2[0] == b[2] && b3[0] == b[3] && b4[0] == b[4] && b5[0] == b[5]
        && b6[0] == b[6] && b7[0] == b[7]);
    assert(a7.skip(1).len() == 0 && b7.skip(1).len() == 0);
}

/// The order of two numbers is the dictionary order of their bytes.
pub proof fn lemma_be_bytes_order(x: u64, y: u64)
    ensures
        key_lt(be_bytes(x), be_bytes(y)) <==> x < y,
        be_bytes(x) == be_bytes(y) <==> x == y,
{
    lemma_be_value_of_bytes(x);
    lemma_be_value_of_bytes(y);
    lemma_key_order_is_value_order(be_bytes(x), be_bytes(y));
}

/// A type with a byte form.
pub trait Wire: Sized {
    /// What a value of the type is, as mathematics.
    type Model;

    /// The model of a value.
    spec fn model(&self) -> Self::Model;

    /// Whether a model can be written: whether each length and count in it can
    /// be announced in eight bytes.
    spec fn fits(m: Self::Model) -> bool;

    /// The byte form of a model.
    spec fn form(m: Self::Model) -> Seq<u8>;

    /// Reads one model from the front of `s`: the model and what is left of
    /// `s`, or nothing where `s` does not start with a form.
    spec fn read(s: Seq<u8>) -> Option<(Self::Model, Seq<u8>)>;

    /// Reading a form gives back the model, and leaves what followed the form.
    proof fn lemma_read_form(m: Self::Model, rest: Seq<u8>)
        requires
            Self::fits(m),
        ensures
            Self::read(Self::form(m) + rest) == Some((m, rest)),
    ;

    /// A second value with the same model.
    fn duplicate(&self) -> (r: Self)
        ensures
            r.model() == self.model(),
    ;

    /// Appends the form of `self` to `out`.
    fn encode(&self, out: &mut Vec<u8>)
        ensures
            Self::fits(self.model()),
            final(out)@ == old(out)@ + Self::form(self.model()),
    ;

    /// Reads a value from `bytes`, starting at `pos`; returns it with the
    /// position behind its form.
    fn decode(bytes: &[u8], pos: usize) -> (r: Option<(Self, usize)>)
        requires
            pos <= bytes@.len(),
        ensures
            match r {
                Some((v, next)) => pos <= next <= bytes@.len() && Self::read(
                    bytes@.skip(pos as int),
                ) == Some((v.model(), bytes@.skip(next as int))),
                None => Self::read(bytes@.skip(pos as int)) is None,
            },
    ;
}

/// Reads a model from the whole of `s`: nothing may be left over.
pub open spec fn parse<T: Wire>(s: Seq<u8>) -> Option<T::Model> {
    match T::read(s) {
        Some((m, rest)) => if rest.len() == 0 {
            Some(m)
        } else {
            None
        },
        None => None,
    }
}

/// Parsing the form of a model gives the model back.
pub proof fn lemma_parse_form<T: Wire>(m: T::Model)
    requires
        T::fits(m),
    ensures
        parse::<T>(T::form(m)) == Some(m),
{
    T::lemma_read_form(m, Seq::empty());
    assert(T::form(m) + Seq::<u8>::empty() =~= T::form(m));
}

/// The byte form of `value`.
pub fn to_bytes<T: Wire>(value: &T) -> (bytes: Vec<u8>)
    ensures
        T::fits(value.model()),
        bytes@ == T::form(value.model()),
{
    let mut bytes: Vec<u8> = Vec::new();
    value.encode(&mut bytes);
    assert(Seq::<u8>::empty() + T::form(value.model()) =~= T::form(value.model()));
    bytes
}

/// Reads a value from the whole of `bytes`. Fails where `bytes` is not the
/// form of a value, or holds more than one form.
pub fn from_bytes<T: Wire>(bytes: &[u8]) -> (r: Option<T>)
    ensures
        match r {
            Some(v) => parse::<T>(bytes@) == Some(v.model()),
            None => parse::<T>(bytes@) is None,
        },
{
    assert(bytes@.skip(0) =~= bytes@);
    match T::decode(bytes, 0) {
        Some((v, next)) => {
            if next == bytes.len() {
                Some(v)
            } else {
                None
            }
        },
        None => None,
    }
}

impl Wire for u64 {
    type Model = u64;

    open spec fn model(&self) -> u64 {
        *self
    }

    open spec fn fits(m: u64) -> bool {
        true
    }

    open spec fn form(m: u64) -> Seq<u8> {
        be_bytes(m)
    }

    open spec fn read(s: Seq<u8>) -> Option<(u64, Seq<u8>)> {
        if s.len() >= 8 {
            Some((be_value(s.take(8)) as u64, s.skip(8)))
        } else {
            None
        }
    }

    proof fn lemma_read_form(m: u64, rest: Seq<u8>) {
        lemma_be_value_of_bytes(m);
        assert((be_bytes(m) + rest).take(8) =~= be_bytes(m));
        assert((be_bytes(m) + rest).skip(8) =~= rest);
    }

    fn duplicate(&self) -> (r: u64) {
        *self
    }

    fn encode(&self, out: &mut Vec<u8>) {
        let x = *self;
        let q1 = x / 0x100;
        let q2 = q1 / 0x100;
        let q3 = q2 / 0x100;
        let q4 = q3 / 0x100;
        let q5 = q4 / 0x100;
        let q6 = q5 / 0x100;
        let q7 = q6 / 0x100;
        out.push((q7 % 0x100) as u8);
        out.push((q6 % 0x100) as u8);
        out.push((q5 % 0x100) as u8);
        out.push((q4 % 0x100) as u8);
        out.push((q3 % 0x100) as u8);
        out.push((q2 % 0x100) as u8);
        out.push((q1 % 0x100) as u8);
        out.push((x % 0x100) as u8);
        assert(out@ =~= old(out)@ + be_bytes(x)) by {
            reveal(be_bytes);
        }
    }

    fn decode(bytes: &[u8], pos: usize) -> (r: Option<(u64, usize)>) {
        if bytes.len() - pos < 8 {
            return None;
        }
        let ghost s = bytes@.skip(pos as int).take(8);
        assert(forall|i: int| 0 <= i < 8 ==> s[i] == bytes@[pos + i]);
        proof {
            lemma_be_bytes_of_value(s);
        }
        let v1: u64 = bytes[pos] as u64;
        let v2: u64 = v1 * 0x100 + bytes[pos + 1] as u64;
        let v3: u64 = v2 * 0x100 + bytes[pos + 2] as u64;
        let v4: u64 = v3 * 0x100 + bytes[pos + 3] as u64;
        let v5: u64 = v4 * 0x100 + bytes[pos + 4] as u64;
        let v6: u64 = v5 * 0x100 + bytes[pos + 5] as u64;
        let v7: u64 = v6 * 0x100 + bytes[pos + 6] as u64;
        assert(v7 * 0x100 + bytes[pos + 7] == be_value(s)) by {
            reveal(be_value);
        }
        let v8: u64 = v7 * 0x100 + bytes[pos + 7] as u64;
        assert(bytes@.skip(pos as int).skip(8) =~= bytes@.skip(pos + 8));
        Some((v8, pos + 8))
    }
}

impl Wire for bool {
    type Model = bool;

    open spec fn model(&self) -> bool {
        *self
    }

    open spec fn fits(m: bool) -> bool {
        true
    }

    open spec fn form(m: bool) -> Seq<u8> {
        seq![if m { 1u8 } else { 0u8 }]
    }

    open spec fn read(s: Seq<u8>) -> Option<(bool, Seq<u8>)> {
        if s.len() >= 1 && s[0] <= 1 {
            Some((s[0] == 1, s.skip(1)))
        } else {
            None
        }
    }

    proof fn lemma_read_form(m: bool, rest: Seq<u8>) {
        assert((Self::form(m) + rest).skip(1) =~= rest);
    }

    fn duplicate(&self) -> (r: bool) {
        *self
    }

    fn encode(&self, out: &mut Vec<u8>) {
        if *self {
            out.push(1u8);
        } else {
            out.push(0u8);
        }
        assert(out@ =~= old(out)@ + Self::form(*self));
    }

    fn decode(bytes: &[u8], pos: usize) -> (r: Option<(bool, usize)>) {
        if bytes.len() - pos < 1 {
            return None;
        }
        let b = bytes[pos];
        if b > 1 {
            return None;
        }
        assert(bytes@.skip(pos as int).skip(1) =~= bytes@.skip(pos + 1));
        Some((b == 1, pos + 1))
    }
}

/// A byte string: its length, then its bytes.
impl Wire for Vec<u8> {
    type Model = Seq<u8>;

    open spec fn model(&self) -> Seq<u8> {
        self@
    }

    open spec fn fits(m: Seq<u8>) -> bool {
        m.len() <= u64::MAX
    }

    open spec fn form(m: Seq<u8>) -> Seq<u8> {
        be_bytes(m.len() as u64) + m
    }

    open spec fn read(s: Seq<u8>) -> Option<(Seq<u8>, Seq<u8>)> {
        match u64::read(s) {
            Some((n, r)) => if n <= r.len() {
                Some((r.take(n as int), r.skip(n as int)))
            } else {
                None
            },
            None => None,
        }
    }

    proof fn lemma_read_form(m: Seq<u8>, rest: Seq<u8>) {
        lemma_be_value_of_bytes(m.len() as u64);
        u64::lemma_read_form(m.len() as u64, m + rest);
        assert(Self::form(m) + rest =~= be_bytes(m.len() as u64) + (m + rest));
        assert((m + rest).take(m.len() as int) =~= m);
        assert((m + rest).skip(m.len() as int) =~= rest);
    }

    fn duplicate(&self) -> (r: Vec<u8>) {
        let r = self.clone();
        assert(r@ =~= self@);
        r
    }

    fn encode(&self, out: &mut Vec<u8>) {
        let n = self.len() as u64;
        n.encode(out);
        out.extend_from_slice(self.as_slice());
        assert(out@ =~= old(out)@ + Self::form(self@));
    }

    fn decode(bytes: &[u8], pos: usize) -> (r: Option<(Vec<u8>, usize)>) {
        match u64::decode(bytes, pos) {
            None => None,
            Some((n, start)) => {
                if n > (bytes.len() - start) as u64 {
                    return None;
                }
                let end = start + n as usize;
                let value = slice_to_vec(slice_subrange(bytes, start, end));
                assert(value@ =~= bytes@.skip(start as int).take(n as int));
                assert(bytes@.skip(start as int).skip(n as int) =~= bytes@.skip(end as int));
                Some((value, end))
            },
        }
    }
}

/// `String::from_utf8`: builds a text from its bytes. It succeeds exactly where
/// the bytes are valid UTF-8, and the text then holds the characters that the
/// bytes encode.
#[verifier::external_body]
pub(crate) fn text_from_utf8(bytes: Vec<u8>) -> (r: Option<String>)
    ensures
        r is Some <==> valid_utf8(bytes@),
        r matches Some(text) ==> text@ == decode_utf8(bytes@),
{
    String::from_utf8(bytes).ok()
}

/// A text: its bytes in UTF-8, as a byte string.
impl Wire for String {
    type Model = Seq<char>;

    open spec fn model(&self) -> Seq<char> {
        self@
    }

    open spec fn fits(m: Seq<char>) -> bool {
        encode_utf8(m).len() <= u64::MAX
    }

    open spec fn form(m: Seq<char>) -> Seq<u8> {
        Vec::<u8>::form(encode_utf8(m))
    }

    open spec fn read(s: Seq<u8>) -> Option<(Seq<char>, Seq<u8>)> {
        match Vec::<u8>::read(s) {
            Some((b, r)) => if valid_utf8(b) {
                Some((decode_utf8(b), r))
            } else {
                None
            },
            None => None,
        }
    }

    proof fn lemma_read_form(m: Seq<char>, rest: Seq<u8>) {
        Vec::<u8>::lemma_read_form(encode_utf8(m), rest);
        encode_utf8_valid_utf8(m);
        encode_utf8_decode_utf8(m);
    }

    fn duplicate(&self) -> (r: String) {
        self.clone()
    }

    fn encode(&self, out: &mut Vec<u8>) {
        let bytes = self.as_str().as_bytes();
        let n = bytes.len() as u64;
        n.encode(out);
        out.extend_from_slice(bytes);
        assert(out@ =~= old(out)@ + Self::form(self@));
    }

    fn decode(bytes: &[u8], pos: usize) -> (r: Option<(String, usize)>) {
        match Vec::<u8>::decode(bytes, pos) {
            None => None,
            Some((raw, next)) => {
                match text_from_utf8(raw) {
                    None => None,
                    Some(text) => Some((text, next)),
                }
            },
        }
    }
}

/// The models of the values in `items`.
pub open spec fn models<T: Wire>(items: Seq<T>) -> Seq<T::Model> {
    Seq::new(items.len(), |i: int| items[i].model())
}

/// The forms of `items`, one after the other.
pub open spec fn items_form<T: Wire>(items: Seq<T::Model>) -> Seq<u8>
    decreases items.len(),
{
    if items.len() == 0 {
        Seq::empty()
    } else {
        items_form::<T>(items.drop_last()) + T::form(items.last())
    }
}

/// Reads `count` models from the front of `s` and appends them to `done`.
pub open spec fn read_items<T: Wire>(s: Seq<u8>, count: nat, done: Seq<T::Model>) -> Option<
    (Seq<T::Model>, Seq<u8>),
>
    decreases count,
{
    if count == 0 {
        Some((done, s))
    } else {
        match T::read(s) {
            Some((m, r)) => read_items::<T>(r, (count - 1) as nat, done.push(m)),
            None => None,
        }
    }
}

proof fn lemma_items_form_front<T: Wire>(items: Seq<T::Model>)
    requires
        items.len() > 0,
    ensures
        items_form::<T>(items) == T::form(items[0]) + items_form::<T>(items.skip(1)),
    decreases items.len(),
{
    if items.len() == 1 {
        assert(items.drop_last() =~= Seq::empty());
        assert(items.skip(1) =~= Seq::empty());
        assert(items_form::<T>(items) =~= T::form(items[0]) + items_form::<T>(items.skip(1)));
    } else {
        lemma_items_form_front::<T>(items.drop_last());
        assert(items.drop_last().skip(1) =~= items.skip(1).drop_last());
        assert(items.skip(1).last() == items.last());
        assert(items_form::<T>(items) =~= T::form(items[0]) + items_form::<T>(items.skip(1)));
    }
}

proof fn lemma_read_items_form<T: Wire>(items: Seq<T::Model>, rest: Seq<u8>, done: Seq<T::Model>)
    requires
        forall|i: int| 0 <= i < items.len() ==> T::fits(#[trigger] items[i]),
    ensures
        read_items::<T>(items_form::<T>(items) + rest, items.len(), done) == Some(
            (done + items, rest),
        ),
    decreases items.len(),
{
    if items.len() == 0 {
        assert(items_form::<T>(items) + rest =~= rest);
        assert(done + items =~= done);
    } else {
        let tail = items.skip(1);
        lemma_items_form_front::<T>(items);
        assert(items_form::<T>(items) + rest =~= T::form(items[0]) + (items_form::<T>(tail)
            + rest));
        T::lemma_read_form(items[0], items_form::<T>(tail) + rest);
        assert forall|i: int| 0 <= i < tail.len() implies T::fits(#[trigger] tail[i]) by {
            assert(tail[i] == items[i + 1]);
        }
        lemma_read_items_form::<T>(tail, rest, done.push(items[0]));
        assert(done.push(items[0]) + tail =~= done + items);
    }
}

/// A list: its count, then its items.
impl<T: Wire> Wire for Vec<T> {
    type Model = Seq<T::Model>;

    open spec fn model(&self) -> Seq<T::Model> {
        models::<T>(self@)
    }

    open spec fn fits(m: Seq<T::Model>) -> bool {
        &&& m.len() <= u64::MAX
        &&& forall|i: int| 0 <= i < m.len() ==> T::fits(#[trigger] m[i])
    }

    open spec fn form(m: Seq<T::Model>) -> Seq<u8> {
        be_bytes(m.len() as u64) + items_form::<T>(m)
    }

    open spec fn read(s: Seq<u8>) -> Option<(Seq<T::Model>, Seq<u8>)> {
        match u64::read(s) {
            Some((n, r)) => read_items::<T>(r, n as nat, Seq::empty()),
            None => None,
        }
    }

    proof fn lemma_read_form(m: Seq<T::Model>, rest: Seq<u8>) {
        u64::lemma_read_form(m.len() as u64, items_form::<T>(m) + rest);
        assert(Self::form(m) + rest =~= be_bytes(m.len() as u64) + (items_form::<T>(m) + rest));
        lemma_read_items_form::<T>(m, rest, Seq::empty());
        assert(Seq::<T::Model>::empty() + m =~= m);
    }

    fn duplicate(&self) -> (r: Vec<T>) {
        let mut r: Vec<T> = Vec::new();
        let mut i: usize = 0;
        while i < self.len()
            invariant
                i <= self.len(),
                r@.len() == i,
                forall|j: int| 0 <= j < i ==> (#[trigger] r@[j]).model() == self@[j].model(),
            decreases self.len() - i,
        {
            r.push(self[i].duplicate());
            i = i + 1;
        }
        assert(models::<T>(r@) =~= models::<T>(self@));
        r
    }

    fn encode(&self, out: &mut Vec<u8>) {
        let n = self.len() as u64;
        n.encode(out);
        let ghost m = self.model();
        let mut i: usize = 0;
        assert(m.take(0) =~= Seq::empty());
        while i < self.len()
            invariant
                i <= self.len(),
                m == models::<T>(self@),
                out@ == old(out)@ + be_bytes(self.len() as u64) + items_form::<T>(m.take(i as int)),
                forall|j: int| 0 <= j < i ==> T::fits(#[trigger] m[j]),
            decreases self.len() - i,
        {
            self[i].encode(out);
            proof {
                assert(m.take(i + 1).drop_last() =~= m.take(i as int));
                assert(m.take(i + 1).last() == m[i as int]);
                assert(out@ =~= old(out)@ + be_bytes(self.len() as u64) + items_form::<T>(
                    m.take(i + 1),
                ));
            }
            i = i + 1;
        }
        assert(m.take(i as int) =~= m);
        assert(out@ =~= old(out)@ + Self::form(m));
    }

    fn decode(bytes: &[u8], pos: usize) -> (r: Option<(Vec<T>, usize)>) {
        match u64::decode(bytes, pos) {
            None => None,
            Some((n, start)) => {
                let mut items: Vec<T> = Vec::new();
                let mut at: usize = start;
                let mut i: u64 = 0;
                assert(models::<T>(items@) =~= Seq::empty());
                while i < n
                    invariant
                        i <= n,
                        pos <= start <= at <= bytes@.len(),
                        u64::read(bytes@.skip(pos as int)) == Some(
                            (n, bytes@.skip(start as int)),
                        ),
                        read_items::<T>(bytes@.skip(start as int), n as nat, Seq::empty())
                            == read_items::<T>(
                            bytes@.skip(at as int),
                            (n - i) as nat,
                            models::<T>(items@),
                        ),
                    decreases n - i,
                {
                    match T::decode(bytes, at) {
                        None => {
                            return None;
                        },
                        Some((v, next)) => {
                            let ghost before = models::<T>(items@);
                            items.push(v);
                            assert(models::<T>(items@) =~= before.push(v.model()));
                            at = next;
                            i = i + 1;
                        },
                    }
                }
                Some((items, at))
            },
        }
    }
}

/// A value that may be absent: one byte that says whether it is there, then
/// the value.
impl<T: Wire> Wire for Option<T> {
    type Model = Option<T::Model>;

    open spec fn model(&self) -> Option<T::Model> {
        match self {
            Some(v) => Some(v.model()),
            None => None,
        }
    }

    open spec fn fits(m: Option<T::Model>) -> bool {
        m matches Some(v) ==> T::fits(v)
    }

    open spec fn form(m: Option<T::Model>) -> Seq<u8> {
        match m {
            Some(v) => seq![1u8] + T::form(v),
            None => seq![0u8],
        }
    }

    open spec fn read(s: Seq<u8>) -> Option<(Option<T::Model>, Seq<u8>)> {
        if s.len() >= 1 && s[0] == 0 {
            Some((None, s.skip(1)))
        } else if s.len() >= 1 && s[0] == 1 {
            match T::read(s.skip(1)) {
                Some((v, r)) => Some((Some(v), r)),
                None => None,
            }
        } else {
            None
        }
    }

    proof fn lemma_read_form(m: Option<T::Model>, rest: Seq<u8>) {
        match m {
            Some(v) => {
                T::lemma_read_form(v, rest);
                assert((Self::form(m) + rest).skip(1) =~= T::form(v) + rest);
            },
            None => {
                assert((Self::form(m) + rest).skip(1) =~= rest);
            },
        }
    }

    fn duplicate(&self) -> (r: Option<T>) {
        match self {
            Some(v) => Some(v.duplicate()),
            None => None,
        }
    }

    fn encode(&self, out: &mut Vec<u8>) {
        match self {
            Some(v) => {
                out.push(1u8);
                v.encode(out);
                assert(out@ =~= old(out)@ + Self::form(self.model()));
            },
            None => {
                out.push(0u8);
                assert(out@ =~= old(out)@ + Self::form(self.model()));
            },
        }
    }

    fn decode(bytes: &[u8], pos: usize) -> (r: Option<(Option<T>, usize)>) {
        if bytes.len() - pos < 1 {
            return None;
        }
        let tag = bytes[pos];
        assert(bytes@.skip(pos as int).skip(1) =~= bytes@.skip(pos + 1));
        if tag == 0 {
            Some((None, pos + 1))
        } else if tag == 1 {
            match T::decode(bytes, pos + 1) {
                Some((v, next)) => Some((Some(v), next)),
                None => None,
            }
        } else {
            None
        }
    }
}

} // verus!
