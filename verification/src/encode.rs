//! The operation encoder: turns an abstract operation list into the
//! exact byte sequence the terminal expects.
//!
//! The wire format is ANSI-style: `ESC [ 2 J` erases the whole display,
//! `ESC [ <row> ; <col> H` positions the cursor with 1-based decimal
//! coordinates, a `Put` is the literal UTF-8 encoding of its character,
//! and a `Resize` is a logical marker carrying no bytes.

use vstd::prelude::*;

use crate::ops::Op;
use vstd::utf8::char_is_scalar;
use vstd::utf8::encode_scalar;
use vstd::utf8::has_width_1_encoding;
use vstd::utf8::has_width_2_encoding;
use vstd::utf8::has_width_3_encoding;
use vstd::utf8::is_scalar;

verus! {

/// The ASCII decimal digits of `n`, most significant first, with no
/// leading zeros (a single `0` digit for zero).
pub open spec fn dec_digits(n: nat) -> Seq<u8>
    decreases n,
{
    if n < 10 {
        seq![(48 + n) as u8]
    } else {
        dec_digits(n / 10).push((48 + n % 10) as u8)
    }
}

/// The bytes one operation contributes to the output stream.
pub open spec fn op_bytes(op: Op) -> Seq<u8> {
    match op {
        Op::EraseEntireDisplay => seq![0x1bu8, 0x5bu8, 0x32u8, 0x4au8],
        Op::Resize(_cols, _rows) => Seq::empty(),
        Op::Put(c) => encode_scalar(c as u32),
        Op::CursorPosition(row, col) => seq![0x1bu8, 0x5bu8] + dec_digits((row + 1) as nat)
            + seq![0x3bu8] + dec_digits((col + 1) as nat) + seq![0x48u8],
    }
}

/// The byte stream an operation list encodes to: the concatenation of
/// each operation's bytes, in order.  A pure function of the list alone.
pub open spec fn encode_spec(ops: Seq<Op>) -> Seq<u8>
    decreases ops.len(),
{
    if ops.len() == 0 {
        Seq::empty()
    } else {
        op_bytes(ops[0]) + encode_spec(ops.drop_first())
    }
}

/// Encoding one more operation appends exactly that operation's bytes.
pub proof fn lemma_encode_snoc(ops: Seq<Op>, op: Op)
    ensures
        encode_spec(ops.push(op)) == encode_spec(ops) + op_bytes(op),
    decreases ops.len(),
{
    if ops.len() == 0 {
        assert(ops.push(op)[0] == op);
        assert(ops.push(op).drop_first() =~= Seq::<Op>::empty());
        assert(encode_spec(ops.push(op).drop_first()) =~= Seq::<u8>::empty());
        assert(encode_spec(ops.push(op)) =~= op_bytes(op));
        assert(encode_spec(ops) =~= Seq::<u8>::empty());
        assert(encode_spec(ops.push(op)) =~= encode_spec(ops) + op_bytes(op));
    } else {
        assert(ops.push(op)[0] == ops[0]);
        assert(ops.push(op).drop_first() =~= ops.drop_first().push(op));
        lemma_encode_snoc(ops.drop_first(), op);
        assert(encode_spec(ops.push(op)) == op_bytes(ops[0]) + (encode_spec(ops.drop_first())
            + op_bytes(op)));
        assert(encode_spec(ops) == op_bytes(ops[0]) + encode_spec(ops.drop_first()));
        assert(encode_spec(ops.push(op)) =~= encode_spec(ops) + op_bytes(op));
    }
}

/// Encoding is independent of any terminal state: the same operation
/// list always encodes to byte-identical output.
pub proof fn lemma_encode_deterministic(ops: Seq<Op>, first: Seq<u8>, second: Seq<u8>)
    requires
        first == encode_spec(ops),
        second == encode_spec(ops),
    ensures
        first == second,
{
}

/// Append the ASCII decimal digits of `n` to `out`.
fn push_decimal(out: &mut Vec<u8>, n: u128)
    ensures
        final(out)@ == old(out)@ + dec_digits(n as nat),
    decreases n,
{
    if n < 10 {
        out.push(48 + n as u8);
        proof {
            assert(out@ =~= old(out)@ + dec_digits(n as nat));
        }
    } else {
        assert(n / 10 < n) by (nonlinear_arith)
            requires
                n >= 10,
        ;
        push_decimal(out, n / 10);
        out.push(48 + (n % 10) as u8);
        proof {
            assert(out@ =~= old(out)@ + dec_digits(n as nat));
        }
    }
}

/// Append the UTF-8 encoding of `c` to `out`.
fn push_utf8(out: &mut Vec<u8>, c: char)
    ensures
        final(out)@ == old(out)@ + encode_scalar(c as u32),
{
    let v = c as u32;
    proof {
        char_is_scalar(c);
        assert(is_scalar(v));
    }
    if v < 0x80 {
        proof {
            assert(has_width_1_encoding(v));
        }
        out.push((v & 0x7F) as u8);
        proof {
            assert(out@ =~= old(out)@ + encode_scalar(c as u32));
        }
    } else if v < 0x800 {
        proof {
            assert(has_width_2_encoding(v));
        }
        out.push(0xC0 | ((v >> 6) & 0x1F) as u8);
        out.push(0x80 | (v & 0x3F) as u8);
        proof {
            assert(out@ =~= old(out)@ + encode_scalar(c as u32));
        }
    } else if v < 0x10000 {
        proof {
            assert(has_width_3_encoding(v));
        }
        out.push(0xE0 | ((v >> 12) & 0x0F) as u8);
        out.push(0x80 | ((v >> 6) & 0x3F) as u8);
        out.push(0x80 | (v & 0x3F) as u8);
        proof {
            assert(out@ =~= old(out)@ + encode_scalar(c as u32));
        }
    } else {
        out.push(0xF0 | ((v >> 18) & 0x7) as u8);
        out.push(0x80 | ((v >> 12) & 0x3F) as u8);
        out.push(0x80 | ((v >> 6) & 0x3F) as u8);
        out.push(0x80 | (v & 0x3F) as u8);
        proof {
            assert(out@ =~= old(out)@ + encode_scalar(c as u32));
        }
    }
}

/// Encode an operation list into the exact output byte sequence.
///
/// Pure and side-effect free: the result is [`encode_spec`] of the list,
/// nothing else.
pub fn code(ops: &[Op]) -> (res: Vec<u8>)
    ensures
        res@ == encode_spec(ops@),
{
    let mut res: Vec<u8> = Vec::new();
    let n = ops.len();
    for i in 0..n
        invariant
            n == ops@.len(),
            res@ == encode_spec(ops@.take(i as int)),
    {
        proof {
            lemma_encode_snoc(ops@.take(i as int), ops@[i as int]);
            assert(ops@.take(i as int).push(ops@[i as int]) =~= ops@.take(i + 1));
        }
        let ghost before = res@;
        match ops[i] {
            Op::EraseEntireDisplay => {
                res.push(0x1b);
                res.push(0x5b);
                res.push(0x32);
                res.push(0x4a);
                proof {
                    assert(res@ =~= before + op_bytes(ops@[i as int]));
                }
            },
            Op::Resize(_cols, _rows) => {
                proof {
                    assert(res@ =~= before + op_bytes(ops@[i as int]));
                }
            },
            Op::Put(c) => {
                push_utf8(&mut res, c);
                proof {
                    assert(res@ =~= before + op_bytes(ops@[i as int]));
                }
            },
            Op::CursorPosition(row, col) => {
                res.push(0x1b);
                res.push(0x5b);
                push_decimal(&mut res, row as u128 + 1);
                res.push(0x3b);
                push_decimal(&mut res, col as u128 + 1);
                res.push(0x48);
                proof {
                    assert(res@ =~= before + op_bytes(ops@[i as int]));
                }
            },
        }
    }
    proof {
        assert(ops@.take(n as int) =~= ops@);
    }
    res
}

} // verus!
