//! Protocol values and their encoding on the wire.

use vstd::prelude::*;
use vstd::string::*;
use crate::text::{decimal, push_decimal};

verus! {

/// A value of the wire protocol: what a client sends and what the engine answers.
#[derive(Debug, PartialEq, Eq)]
pub enum RespValue {
    SimpleString(String),
    SimpleError(String),
    Integer(u64),
    BulkString(String),
    NullBulkString,
    Array(Vec<RespValue>),
    NullArray,
}

/// The mathematical value of a [`RespValue`].
pub enum RespView {
    SimpleString(Seq<char>),
    SimpleError(Seq<char>),
    Integer(nat),
    BulkString(Seq<char>),
    NullBulkString,
    Array(Seq<RespView>),
    NullArray,
}

/// The mathematical value of `v`.
pub open spec fn view_of(v: RespValue) -> RespView
    decreases v,
{
    match v {
        RespValue::SimpleString(s) => RespView::SimpleString(s@),
        RespValue::SimpleError(s) => RespView::SimpleError(s@),
        RespValue::Integer(n) => RespView::Integer(n as nat),
        RespValue::BulkString(s) => RespView::BulkString(s@),
        RespValue::NullBulkString => RespView::NullBulkString,
        RespValue::Array(items) => RespView::Array(
            Seq::new(
                items@.len(),
                |i: int|
                    if 0 <= i < items@.len() {
                        view_of(items@[i])
                    } else {
                        RespView::NullArray
                    },
            ),
        ),
        RespValue::NullArray => RespView::NullArray,
    }
}

impl View for RespValue {
    type V = RespView;

    open spec fn view(&self) -> RespView {
        view_of(*self)
    }
}

/// The views of a run of values, in order.
pub open spec fn views(items: Seq<RespValue>) -> Seq<RespView> {
    Seq::new(items.len(), |i: int| items[i]@)
}

/// The line terminator of the protocol.
pub open spec fn crlf() -> Seq<char> {
    seq!['\r', '\n']
}

/// Number of bytes that `s` takes in UTF-8.
pub open spec fn byte_len(s: Seq<char>) -> nat {
    vstd::utf8::encode_utf8(s).len()
}

/// The encoding of one value.
pub open spec fn wire(v: RespView) -> Seq<char>
    decreases v,
{
    match v {
        RespView::SimpleString(s) => seq!['+'] + s + crlf(),
        RespView::SimpleError(s) => seq!['-'] + s + crlf(),
        RespView::Integer(n) => seq![':'] + decimal(n) + crlf(),
        RespView::BulkString(s) => seq!['$'] + decimal(byte_len(s)) + crlf() + s + crlf(),
        RespView::NullBulkString => seq!['$', '-', '1', '\r', '\n'],
        RespView::Array(items) => seq!['*'] + decimal(items.len()) + crlf() + wire_all(
            items,
            items.len(),
        ),
        RespView::NullArray => seq!['*', '-', '1', '\r', '\n'],
    }
}

/// The encodings of the first `n` values of `items`, one after another.
pub open spec fn wire_all(items: Seq<RespView>, n: nat) -> Seq<char>
    decreases items, n,
{
    if n == 0 || n > items.len() {
        Seq::empty()
    } else {
        wire_all(items, (n - 1) as nat) + wire(items[n - 1])
    }
}

/// The view of an array holds the views of its items.
pub proof fn lemma_array_view(items: Vec<RespValue>)
    ensures
        RespValue::Array(items)@ == RespView::Array(views(items@)),
{
    assert(RespValue::Array(items)@->Array_0 =~= views(items@));
}

impl RespValue {
    /// Appends the encoding of `self` to `out`.
    pub fn write_to(&self, out: &mut String)
        ensures
            final(out)@ == old(out)@ + wire(self@),
        decreases self,
    {
        match self {
            RespValue::SimpleString(s) => {
                out.push('+');
                out.append(s.as_str());
                out.push('\r');
                out.push('\n');
            },
            RespValue::SimpleError(s) => {
                out.push('-');
                out.append(s.as_str());
                out.push('\r');
                out.push('\n');
            },
            RespValue::Integer(n) => {
                out.push(':');
                push_decimal(out, *n as u128);
                out.push('\r');
                out.push('\n');
            },
            RespValue::BulkString(s) => {
                out.push('$');
                let bytes = s.as_str().as_bytes();
                push_decimal(out, bytes.len() as u128);
                out.push('\r');
                out.push('\n');
                out.append(s.as_str());
                out.push('\r');
                out.push('\n');
            },
            RespValue::NullBulkString => {
                out.push('$');
                out.push('-');
                out.push('1');
                out.push('\r');
                out.push('\n');
            },
            RespValue::Array(items) => {
                out.push('*');
                push_decimal(out, items.len() as u128);
                out.push('\r');
                out.push('\n');
                let ghost head = out@;
                let ghost elems = self@->Array_0;
                let mut i: usize = 0;
                while i < items.len()
                    invariant
                        i <= items.len(),
                        *self == RespValue::Array(*items),
                        elems.len() == items.len(),
                        forall|j: int| 0 <= j < items.len() ==> elems[j] == items[j]@,
                        out@ == head + wire_all(elems, i as nat),
                    decreases items.len() - i,
                {
                    assert(decreases_to!(*self => self->Array_0));
                    items[i].write_to(out);
                    i = i + 1;
                }
            },
            RespValue::NullArray => {
                out.push('*');
                out.push('-');
                out.push('1');
                out.push('\r');
                out.push('\n');
            },
        }
    }

    /// The encoding of `self`.
    pub fn serialize(self) -> (s: String)
        ensures
            s@ == wire(self@),
    {
        let mut s = String::new();
        self.write_to(&mut s);
        s
    }
}

} // verus!
