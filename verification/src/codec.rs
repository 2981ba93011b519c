//! The wire codec for the canonical event set.
//!
//! An event travels as MessagePack: a fixarray whose first element is the
//! variant tag (a positive fixint), followed by the variant's fields.
//! Integers use the fixed-width `int 32` / `int 64` formats, a focus
//! grant's machine name the `str 32` format. The encoding of every event
//! is pinned down by [`spec_encode`], the decoder by [`spec_decode`], and
//! [`lemma_decode_encode`] proves that decoding an encoding returns the
//! original event.

use vstd::prelude::*;
use vstd::arithmetic::div_mod::{
    lemma_div_pos_is_pos, lemma_fundamental_div_mod, lemma_remainder_lower, lemma_remainder_upper,
};
use vstd::string::StrSliceExecFns;
use vstd::utf8::{decode_utf8, encode_utf8, valid_utf8};
use crate::events::{Event, EventV, Key, MouseButton};

verus! {

/// MessagePack marker for a fixarray of the given small length.
pub const ARRAY1: u8 = 0x91;
pub const ARRAY2: u8 = 0x92;
pub const ARRAY3: u8 = 0x93;
pub const ARRAY4: u8 = 0x94;

/// MessagePack marker for a 32-bit big-endian two's-complement integer.
pub const INT32_MARK: u8 = 0xd2;

/// MessagePack marker for a 64-bit big-endian two's-complement integer.
pub const INT64_MARK: u8 = 0xd3;

/// MessagePack marker for a string with a 32-bit big-endian length.
pub const STR32_MARK: u8 = 0xdb;

pub const TAG_MOUSE_MOVE: u8 = 0;
pub const TAG_MOUSE_CLICK: u8 = 1;
pub const TAG_MOUSE_BUTTON_PRESS: u8 = 2;
pub const TAG_MOUSE_BUTTON_RELEASE: u8 = 3;
pub const TAG_MOUSE_SCROLL: u8 = 4;
pub const TAG_KEY_PRESS: u8 = 5;
pub const TAG_KEY_RELEASE: u8 = 6;
pub const TAG_FOCUS_GRANT: u8 = 7;
pub const TAG_FOCUS_RELEASE: u8 = 8;
pub const TAG_HEARTBEAT: u8 = 9;

/// Decoding failed: the bytes are not the encoding of any event.
#[derive(Debug, Clone, Copy, PartialEq, Eq, Structural)]
pub enum DecodeError {
    Malformed,
}

// ---------------------------------------------------------------------
// Big-endian byte strings.
// ---------------------------------------------------------------------

/// `256^n`.
pub open spec fn pow256(n: nat) -> int
    decreases n,
{
    if n == 0 {
        1
    } else {
        256 * pow256((n - 1) as nat)
    }
}

/// The `n` big-endian base-256 digits of `v`.
pub open spec fn be_bytes(v: int, n: nat) -> Seq<u8>
    decreases n,
{
    if n == 0 {
        Seq::empty()
    } else {
        be_bytes(v / 256, (n - 1) as nat).push((v % 256) as u8)
    }
}

/// The value of a big-endian base-256 byte string.
pub open spec fn be_val(s: Seq<u8>) -> int
    decreases s.len(),
{
    if s.len() == 0 {
        0
    } else {
        be_val(s.drop_last()) * 256 + s.last()
    }
}

pub proof fn lemma_pow256_values()
    ensures
        pow256(0) == 1,
        pow256(1) == 0x100,
        pow256(2) == 0x10000,
        pow256(3) == 0x1000000,
        pow256(4) == 0x100000000,
        pow256(8) == 0x10000000000000000,
{
    reveal_with_fuel(pow256, 9);
}

pub proof fn lemma_be_bytes_len(v: int, n: nat)
    ensures
        be_bytes(v, n).len() == n,
    decreases n,
{
    if n > 0 {
        lemma_be_bytes_len(v / 256, (n - 1) as nat);
    }
}

/// Reading back the big-endian digits of `v` yields `v`.
pub proof fn lemma_be_val_of_be_bytes(v: int, n: nat)
    requires
        0 <= v < pow256(n),
    ensures
        be_val(be_bytes(v, n)) == v,
    decreases n,
{
    if n == 0 {
    } else {
        let q = v / 256;
        let r = v % 256;
        lemma_fundamental_div_mod(v, 256);
        lemma_remainder_lower(v, 256);
        lemma_remainder_upper(v, 256);
        lemma_div_pos_is_pos(v, 256);
        assert(q >= 0);
        assert(v == q * 256 + r);
        // q < pow256(n - 1), because v < 256 * pow256(n - 1)
        assert(q < pow256((n - 1) as nat)) by {
            if q >= pow256((n - 1) as nat) {
                assert(q * 256 >= pow256((n - 1) as nat) * 256) by (nonlinear_arith)
                    requires q >= pow256((n - 1) as nat);
                assert(false);
            }
        }
        lemma_be_val_of_be_bytes(q, (n - 1) as nat);
        lemma_be_bytes_len(q, (n - 1) as nat);
        let s = be_bytes(v, n);
        assert(s.drop_last() =~= be_bytes(q, (n - 1) as nat));
        assert(s.last() == r as u8);
    }
}

/// The value of any `n`-byte string lies below `256^n`.
pub proof fn lemma_be_val_bound(s: Seq<u8>)
    ensures
        0 <= be_val(s) < pow256(s.len()),
    decreases s.len(),
{
    if s.len() > 0 {
        lemma_be_val_bound(s.drop_last());
        let p = pow256((s.len() - 1) as nat);
        let q = be_val(s.drop_last());
        assert(q * 256 + s.last() < p * 256) by (nonlinear_arith)
            requires 0 <= q < p, s.last() < 256;
        assert(q * 256 >= 0) by (nonlinear_arith)
            requires q >= 0;
    }
}

/// Appends the `n` big-endian digits of `v` to `out`.
pub fn push_be_bytes(out: &mut Vec<u8>, v: u64, n: u32)
    requires
        n <= 8,
        (v as int) < pow256(n as nat),
    ensures
        final(out)@ == old(out)@ + be_bytes(v as int, n as nat),
    decreases n,
{
    if n == 0 {
        assert(out@ =~= old(out)@ + be_bytes(v as int, 0));
    } else {
        proof {
            lemma_fundamental_div_mod(v as int, 256);
            lemma_remainder_lower(v as int, 256);
            lemma_div_pos_is_pos(v as int, 256);
            assert((v as int) / 256 < pow256((n - 1) as nat)) by {
                if (v as int) / 256 >= pow256((n - 1) as nat) {
                    assert(((v as int) / 256) * 256 >= pow256((n - 1) as nat) * 256)
                        by (nonlinear_arith)
                        requires (v as int) / 256 >= pow256((n - 1) as nat);
                    lemma_remainder_upper(v as int, 256);
                    assert(false);
                }
            }
        }
        push_be_bytes(out, v / 256, n - 1);
        out.push((v % 256) as u8);
        assert(out@ =~= old(out)@ + be_bytes(v as int, n as nat));
    }
}

/// Reads the value of the `n` bytes of `b` starting at `start`.
pub fn read_be_val(b: &[u8], start: usize, n: usize) -> (r: u64)
    requires
        n <= 8,
        start + n <= b@.len(),
    ensures
        r as int == be_val(b@.subrange(start as int, (start + n) as int)),
{
    proof {
        lemma_pow256_values();
    }
    let blen: usize = b.len();
    let mut r: u64 = 0;
    let mut i: usize = 0;
    while i < n
        invariant
            i <= n,
            n <= 8,
            start + n <= blen,
            blen == b@.len(),
            r as int == be_val(b@.subrange(start as int, (start + i) as int)),
            (r as int) < pow256(i as nat),
            pow256(8) == 0x10000000000000000,
        decreases n - i,
    {
        proof {
            lemma_pow256_mono(i as nat, 7);
            let s = b@.subrange(start as int, (start + i + 1) as int);
            assert(s.drop_last() =~= b@.subrange(start as int, (start + i) as int));
            lemma_pow256_mono((i + 1) as nat, 8);
        }
        r = r * 256 + (b[start + i] as u64);
        i = i + 1;
    }
    r
}

pub proof fn lemma_pow256_pos(n: nat)
    ensures
        pow256(n) >= 1,
    decreases n,
{
    if n > 0 {
        lemma_pow256_pos((n - 1) as nat);
    }
}

pub proof fn lemma_pow256_mono(m: nat, n: nat)
    requires
        m <= n,
    ensures
        pow256(m) <= pow256(n),
        pow256(m) >= 1,
    decreases n,
{
    lemma_pow256_pos(m);
    if m < n {
        lemma_pow256_mono(m, (n - 1) as nat);
        lemma_pow256_pos((n - 1) as nat);
        assert(pow256(n) == 256 * pow256((n - 1) as nat));
    }
}

// ---------------------------------------------------------------------
// Two's-complement representations of signed integers.
// ---------------------------------------------------------------------

/// The unsigned 32-bit representation of a 32-bit signed value.
pub open spec fn u32_repr(x: int) -> int {
    if x < 0 {
        x + 0x100000000
    } else {
        x
    }
}

/// The signed value of an unsigned 32-bit representation.
pub open spec fn i32_unrepr(u: int) -> int {
    if u >= 0x80000000 {
        u - 0x100000000
    } else {
        u
    }
}

/// The unsigned 64-bit representation of a 64-bit signed value.
pub open spec fn u64_repr(x: int) -> int {
    if x < 0 {
        x + 0x10000000000000000
    } else {
        x
    }
}

/// The signed value of an unsigned 64-bit representation.
pub open spec fn i64_unrepr(u: int) -> int {
    if u >= 0x8000000000000000 {
        u - 0x10000000000000000
    } else {
        u
    }
}

fn u32_repr_exec(x: i32) -> (r: u32)
    ensures
        r as int == u32_repr(x as int),
{
    if x >= 0 {
        x as u32
    } else {
        ((x as i64) + 0x100000000i64) as u32
    }
}

fn i32_unrepr_exec(u: u32) -> (r: i32)
    ensures
        r as int == i32_unrepr(u as int),
{
    if u >= 0x80000000 {
        ((u as i64) - 0x100000000i64) as i32
    } else {
        u as i32
    }
}

fn u64_repr_exec(x: i64) -> (r: u64)
    ensures
        r as int == u64_repr(x as int),
{
    if x >= 0 {
        x as u64
    } else {
        ((x as i128) + 0x10000000000000000i128) as u64
    }
}

fn i64_unrepr_exec(u: u64) -> (r: i64)
    ensures
        r as int == i64_unrepr(u as int),
{
    if u >= 0x8000000000000000 {
        ((u as i128) - 0x10000000000000000i128) as i64
    } else {
        u as i64
    }
}

// ---------------------------------------------------------------------
// Codes for buttons and keys.
// ---------------------------------------------------------------------

/// The wire code of a mouse button.
pub open spec fn button_code_spec(b: MouseButton) -> u8 {
    match b {
        MouseButton::Left => 0,
        MouseButton::Right => 1,
        MouseButton::Middle => 2,
    }
}

/// The button a wire code stands for.
pub open spec fn button_from_code_spec(c: u8) -> Option<MouseButton> {
    if c == 0 {
        Some(MouseButton::Left)
    } else if c == 1 {
        Some(MouseButton::Right)
    } else if c == 2 {
        Some(MouseButton::Middle)
    } else {
        None
    }
}

pub fn button_code(b: &MouseButton) -> (c: u8)
    ensures
        c == button_code_spec(*b),
{
    match b {
        MouseButton::Left => 0,
        MouseButton::Right => 1,
        MouseButton::Middle => 2,
    }
}

pub fn button_from_code(c: u8) -> (b: Option<MouseButton>)
    ensures
        b == button_from_code_spec(c),
{
    if c == 0 {
        Some(MouseButton::Left)
    } else if c == 1 {
        Some(MouseButton::Right)
    } else if c == 2 {
        Some(MouseButton::Middle)
    } else {
        None
    }
}

/// The wire code of a key.
pub open spec fn key_code_spec(k: Key) -> u8 {
    match k {
        Key::KeyA => 0,
        Key::KeyB => 1,
        Key::KeyC => 2,
        Key::KeyD => 3,
        Key::KeyE => 4,
        Key::KeyF => 5,
        Key::KeyG => 6,
        Key::KeyH => 7,
        Key::KeyI => 8,
        Key::KeyJ => 9,
        Key::KeyK => 10,
        Key::KeyL => 11,
        Key::KeyM => 12,
        Key::KeyN => 13,
        Key::KeyO => 14,
        Key::KeyP => 15,
        Key::KeyQ => 16,
        Key::KeyR => 17,
        Key::KeyS => 18,
        Key::KeyT => 19,
        Key::KeyU => 20,
        Key::KeyV => 21,
        Key::KeyW => 22,
        Key::KeyX => 23,
        Key::KeyY => 24,
        Key::KeyZ => 25,
        Key::ControlLeft => 26,
        Key::ControlRight => 27,
        Key::ShiftLeft => 28,
        Key::ShiftRight => 29,
        Key::AltLeft => 30,
        Key::AltRight => 31,
        Key::MetaLeft => 32,
        Key::MetaRight => 33,
        Key::Escape => 34,
        Key::Return => 35,
        Key::Space => 36,
        Key::Backspace => 37,
        Key::Tab => 38,
    }
}

/// The key a wire code stands for.
pub open spec fn key_from_code_spec(c: u8) -> Option<Key> {
    if c == 0 {
        Some(Key::KeyA)
    } else if c == 1 {
        Some(Key::KeyB)
    } else if c == 2 {
        Some(Key::KeyC)
    } else if c == 3 {
        Some(Key::KeyD)
    } else if c == 4 {
        Some(Key::KeyE)
    } else if c == 5 {
        Some(Key::KeyF)
    } else if c == 6 {
        Some(Key::KeyG)
    } else if c == 7 {
        Some(Key::KeyH)
    } else if c == 8 {
        Some(Key::KeyI)
    } else if c == 9 {
        Some(Key::KeyJ)
    } else if c == 10 {
        Some(Key::KeyK)
    } else if c == 11 {
        Some(Key::KeyL)
    } else if c == 12 {
        Some(Key::KeyM)
    } else if c == 13 {
        Some(Key::KeyN)
    } else if c == 14 {
        Some(Key::KeyO)
    } else if c == 15 {
        Some(Key::KeyP)
    } else if c == 16 {
        Some(Key::KeyQ)
    } else if c == 17 {
        Some(Key::KeyR)
    } else if c == 18 {
        Some(Key::KeyS)
    } else if c == 19 {
        Some(Key::KeyT)
    } else if c == 20 {
        Some(Key::KeyU)
    } else if c == 21 {
        Some(Key::KeyV)
    } else if c == 22 {
        Some(Key::KeyW)
    } else if c == 23 {
        Some(Key::KeyX)
    } else if c == 24 {
        Some(Key::KeyY)
    } else if c == 25 {
        Some(Key::KeyZ)
    } else if c == 26 {
        Some(Key::ControlLeft)
    } else if c == 27 {
        Some(Key::ControlRight)
    } else if c == 28 {
        Some(Key::ShiftLeft)
    } else if c == 29 {
        Some(Key::ShiftRight)
    } else if c == 30 {
        Some(Key::AltLeft)
    } else if c == 31 {
        Some(Key::AltRight)
    } else if c == 32 {
        Some(Key::MetaLeft)
    } else if c == 33 {
        Some(Key::MetaRight)
    } else if c == 34 {
        Some(Key::Escape)
    } else if c == 35 {
        Some(Key::Return)
    } else if c == 36 {
        Some(Key::Space)
    } else if c == 37 {
        Some(Key::Backspace)
    } else if c == 38 {
        Some(Key::Tab)
    } else {
        None
    }
}

pub fn key_code(k: &Key) -> (c: u8)
    ensures
        c == key_code_spec(*k),
{
    match k {
        Key::KeyA => 0,
        Key::KeyB => 1,
        Key::KeyC => 2,
        Key::KeyD => 3,
        Key::KeyE => 4,
        Key::KeyF => 5,
        Key::KeyG => 6,
        Key::KeyH => 7,
        Key::KeyI => 8,
        Key::KeyJ => 9,
        Key::KeyK => 10,
        Key::KeyL => 11,
        Key::KeyM => 12,
        Key::KeyN => 13,
        Key::KeyO => 14,
        Key::KeyP => 15,
        Key::KeyQ => 16,
        Key::KeyR => 17,
        Key::KeyS => 18,
        Key::KeyT => 19,
        Key::KeyU => 20,
        Key::KeyV => 21,
        Key::KeyW => 22,
        Key::KeyX => 23,
        Key::KeyY => 24,
        Key::KeyZ => 25,
        Key::ControlLeft => 26,
        Key::ControlRight => 27,
        Key::ShiftLeft => 28,
        Key::ShiftRight => 29,
        Key::AltLeft => 30,
        Key::AltRight => 31,
        Key::MetaLeft => 32,
        Key::MetaRight => 33,
        Key::Escape => 34,
        Key::Return => 35,
        Key::Space => 36,
        Key::Backspace => 37,
        Key::Tab => 38,
    }
}

pub fn key_from_code(c: u8) -> (k: Option<Key>)
    ensures
        k == key_from_code_spec(c),
{
    if c == 0 {
        Some(Key::KeyA)
    } else if c == 1 {
        Some(Key::KeyB)
    } else if c == 2 {
        Some(Key::KeyC)
    } else if c == 3 {
        Some(Key::KeyD)
    } else if c == 4 {
        Some(Key::KeyE)
    } else if c == 5 {
        Some(Key::KeyF)
    } else if c == 6 {
        Some(Key::KeyG)
    } else if c == 7 {
        Some(Key::KeyH)
    } else if c == 8 {
        Some(Key::KeyI)
    } else if c == 9 {
        Some(Key::KeyJ)
    } else if c == 10 {
        Some(Key::KeyK)
    } else if c == 11 {
        Some(Key::KeyL)
    } else if c == 12 {
        Some(Key::KeyM)
    } else if c == 13 {
        Some(Key::KeyN)
    } else if c == 14 {
        Some(Key::KeyO)
    } else if c == 15 {
        Some(Key::KeyP)
    } else if c == 16 {
        Some(Key::KeyQ)
    } else if c == 17 {
        Some(Key::KeyR)
    } else if c == 18 {
        Some(Key::KeyS)
    } else if c == 19 {
        Some(Key::KeyT)
    } else if c == 20 {
        Some(Key::KeyU)
    } else if c == 21 {
        Some(Key::KeyV)
    } else if c == 22 {
        Some(Key::KeyW)
    } else if c == 23 {
        Some(Key::KeyX)
    } else if c == 24 {
        Some(Key::KeyY)
    } else if c == 25 {
        Some(Key::KeyZ)
    } else if c == 26 {
        Some(Key::ControlLeft)
    } else if c == 27 {
        Some(Key::ControlRight)
    } else if c == 28 {
        Some(Key::ShiftLeft)
    } else if c == 29 {
        Some(Key::ShiftRight)
    } else if c == 30 {
        Some(Key::AltLeft)
    } else if c == 31 {
        Some(Key::AltRight)
    } else if c == 32 {
        Some(Key::MetaLeft)
    } else if c == 33 {
        Some(Key::MetaRight)
    } else if c == 34 {
        Some(Key::Escape)
    } else if c == 35 {
        Some(Key::Return)
    } else if c == 36 {
        Some(Key::Space)
    } else if c == 37 {
        Some(Key::Backspace)
    } else if c == 38 {
        Some(Key::Tab)
    } else {
        None
    }
}

/// Wire codes and keys correspond one to one.
pub proof fn lemma_key_code_round_trip(k: Key)
    ensures
        key_from_code_spec(key_code_spec(k)) == Some(k),
{
}

/// Wire codes and buttons correspond one to one.
pub proof fn lemma_button_code_round_trip(b: MouseButton)
    ensures
        button_from_code_spec(button_code_spec(b)) == Some(b),
{
}

// ---------------------------------------------------------------------
// The encoding.
// ---------------------------------------------------------------------

/// A 32-bit signed integer field on the wire.
pub open spec fn int32_bytes(x: int) -> Seq<u8> {
    seq![INT32_MARK] + be_bytes(u32_repr(x), 4)
}

/// A 64-bit signed integer field on the wire.
pub open spec fn int64_bytes(x: int) -> Seq<u8> {
    seq![INT64_MARK] + be_bytes(u64_repr(x), 8)
}

/// A string field on the wire: marker, 32-bit byte length, UTF-8 bytes.
pub open spec fn str32_bytes(t: Seq<char>) -> Seq<u8> {
    seq![STR32_MARK] + be_bytes(encode_utf8(t).len() as int, 4) + encode_utf8(t)
}

/// Whether an event fits the wire formats: every integer within its
/// fixed width, and a focus grant's name at most `u32::MAX` UTF-8 bytes
/// (the `str 32` length prefix forces this).
pub open spec fn event_wf(ev: EventV) -> bool {
    match ev {
        EventV::MouseMove { x, y } => i32::MIN <= x <= i32::MAX && i32::MIN <= y <= i32::MAX,
        EventV::MouseScroll { delta_x, delta_y } => i64::MIN <= delta_x <= i64::MAX
            && i64::MIN <= delta_y <= i64::MAX,
        EventV::FocusGrant { target, x, y } => i32::MIN <= x <= i32::MAX && i32::MIN <= y
            <= i32::MAX && encode_utf8(target).len() < 0x100000000,
        _ => true,
    }
}

/// The bytes that stand for an event on the wire.
pub open spec fn spec_encode(ev: EventV) -> Seq<u8> {
    match ev {
        EventV::MouseMove { x, y } => seq![ARRAY3, TAG_MOUSE_MOVE] + int32_bytes(x)
            + int32_bytes(y),
        EventV::MouseClick { button } => seq![ARRAY2, TAG_MOUSE_CLICK, button_code_spec(button)],
        EventV::MouseButtonPress { button } => (seq![
            ARRAY2,
            TAG_MOUSE_BUTTON_PRESS,
            button_code_spec(button),
        ]),
        EventV::MouseButtonRelease { button } => (seq![
            ARRAY2,
            TAG_MOUSE_BUTTON_RELEASE,
            button_code_spec(button),
        ]),
        EventV::MouseScroll { delta_x, delta_y } => seq![ARRAY3, TAG_MOUSE_SCROLL] + int64_bytes(
            delta_x,
        ) + int64_bytes(delta_y),
        EventV::KeyPress { key } => seq![ARRAY2, TAG_KEY_PRESS, key_code_spec(key)],
        EventV::KeyRelease { key } => seq![ARRAY2, TAG_KEY_RELEASE, key_code_spec(key)],
        EventV::FocusGrant { target, x, y } => seq![ARRAY4, TAG_FOCUS_GRANT] + str32_bytes(target)
            + int32_bytes(x) + int32_bytes(y),
        EventV::FocusRelease => seq![ARRAY1, TAG_FOCUS_RELEASE],
        EventV::Heartbeat => seq![ARRAY1, TAG_HEARTBEAT],
    }
}

fn push_int32(out: &mut Vec<u8>, x: i32)
    ensures
        final(out)@ == old(out)@ + int32_bytes(x as int),
{
    proof {
        lemma_pow256_values();
    }
    out.push(INT32_MARK);
    let u = u32_repr_exec(x);
    push_be_bytes(out, u as u64, 4);
    assert(out@ =~= old(out)@ + int32_bytes(x as int));
}

fn push_int64(out: &mut Vec<u8>, x: i64)
    ensures
        final(out)@ == old(out)@ + int64_bytes(x as int),
{
    proof {
        lemma_pow256_values();
    }
    out.push(INT64_MARK);
    let u = u64_repr_exec(x);
    push_be_bytes(out, u, 8);
    assert(out@ =~= old(out)@ + int64_bytes(x as int));
}

/// Whether an event can be put on the wire; see [`event_wf`]. Only a
/// focus grant whose machine name runs past `u32::MAX` UTF-8 bytes is
/// refused.
pub fn encodable(e: &Event) -> (r: bool)
    ensures
        r == event_wf(e@),
{
    match e {
        Event::FocusGrant { target, x: _, y: _ } => {
            let bytes: &[u8] = target.as_str().as_bytes();
            (bytes.len() as u64) < 0x100000000u64
        }
        _ => true,
    }
}

/// Encodes an event for the wire. Cannot fail on well-formed events.
pub fn encode(e: &Event) -> (r: Vec<u8>)
    requires
        event_wf(e@),
    ensures
        r@ == spec_encode(e@),
{
    let mut out: Vec<u8> = Vec::new();
    match e {
        Event::MouseMove { x, y } => {
            out.push(ARRAY3);
            out.push(TAG_MOUSE_MOVE);
            push_int32(&mut out, *x);
            push_int32(&mut out, *y);
            assert(out@ =~= spec_encode(e@));
        }
        Event::MouseClick { button } => {
            out.push(ARRAY2);
            out.push(TAG_MOUSE_CLICK);
            out.push(button_code(button));
            assert(out@ =~= spec_encode(e@));
        }
        Event::MouseButtonPress { button } => {
            out.push(ARRAY2);
            out.push(TAG_MOUSE_BUTTON_PRESS);
            out.push(button_code(button));
            assert(out@ =~= spec_encode(e@));
        }
        Event::MouseButtonRelease { button } => {
            out.push(ARRAY2);
            out.push(TAG_MOUSE_BUTTON_RELEASE);
            out.push(button_code(button));
            assert(out@ =~= spec_encode(e@));
        }
        Event::MouseScroll { delta_x, delta_y } => {
            out.push(ARRAY3);
            out.push(TAG_MOUSE_SCROLL);
            push_int64(&mut out, *delta_x);
            push_int64(&mut out, *delta_y);
            assert(out@ =~= spec_encode(e@));
        }
        Event::KeyPress { key } => {
            out.push(ARRAY2);
            out.push(TAG_KEY_PRESS);
            out.push(key_code(key));
            assert(out@ =~= spec_encode(e@));
        }
        Event::KeyRelease { key } => {
            out.push(ARRAY2);
            out.push(TAG_KEY_RELEASE);
            out.push(key_code(key));
            assert(out@ =~= spec_encode(e@));
        }
        Event::FocusGrant { target, x, y } => {
            proof {
                lemma_pow256_values();
            }
            out.push(ARRAY4);
            out.push(TAG_FOCUS_GRANT);
            out.push(STR32_MARK);
            let bytes = target.as_str().as_bytes_vec();
            push_be_bytes(&mut out, bytes.len() as u64, 4);
            out.extend_from_slice(bytes.as_slice());
            push_int32(&mut out, *x);
            push_int32(&mut out, *y);
            assert(out@ =~= spec_encode(e@));
        }
        Event::FocusRelease => {
            out.push(ARRAY1);
            out.push(TAG_FOCUS_RELEASE);
            assert(out@ =~= spec_encode(e@));
        }
        Event::Heartbeat => {
            out.push(ARRAY1);
            out.push(TAG_HEARTBEAT);
            assert(out@ =~= spec_encode(e@));
        }
    }
    out
}


// ---------------------------------------------------------------------
// The decoding.
// ---------------------------------------------------------------------

/// The signed 32-bit field whose marker byte sits at `i`.
pub open spec fn int32_at(b: Seq<u8>, i: int) -> int {
    i32_unrepr(be_val(b.subrange(i + 1, i + 5)))
}

/// The signed 64-bit field whose marker byte sits at `i`.
pub open spec fn int64_at(b: Seq<u8>, i: int) -> int {
    i64_unrepr(be_val(b.subrange(i + 1, i + 9)))
}

/// The event that a byte string stands for, or `None` when it is not the
/// encoding of any event.
pub open spec fn spec_decode(b: Seq<u8>) -> Option<EventV> {
    if b.len() < 2 {
        None
    } else {
        let h = b[0];
        let tag = b[1];
        if tag == TAG_MOUSE_MOVE {
            if h == ARRAY3 && b.len() == 12 && b[2] == INT32_MARK && b[7] == INT32_MARK {
                Some(EventV::MouseMove { x: int32_at(b, 2), y: int32_at(b, 7) })
            } else {
                None
            }
        } else if tag == TAG_MOUSE_CLICK {
            if h == ARRAY2 && b.len() == 3 && button_from_code_spec(b[2]) is Some {
                Some(EventV::MouseClick { button: button_from_code_spec(b[2])->Some_0 })
            } else {
                None
            }
        } else if tag == TAG_MOUSE_BUTTON_PRESS {
            if h == ARRAY2 && b.len() == 3 && button_from_code_spec(b[2]) is Some {
                Some(EventV::MouseButtonPress { button: button_from_code_spec(b[2])->Some_0 })
            } else {
                None
            }
        } else if tag == TAG_MOUSE_BUTTON_RELEASE {
            if h == ARRAY2 && b.len() == 3 && button_from_code_spec(b[2]) is Some {
                Some(EventV::MouseButtonRelease { button: button_from_code_spec(b[2])->Some_0 })
            } else {
                None
            }
        } else if tag == TAG_MOUSE_SCROLL {
            if h == ARRAY3 && b.len() == 20 && b[2] == INT64_MARK && b[11] == INT64_MARK {
                Some(EventV::MouseScroll { delta_x: int64_at(b, 2), delta_y: int64_at(b, 11) })
            } else {
                None
            }
        } else if tag == TAG_KEY_PRESS {
            if h == ARRAY2 && b.len() == 3 && key_from_code_spec(b[2]) is Some {
                Some(EventV::KeyPress { key: key_from_code_spec(b[2])->Some_0 })
            } else {
                None
            }
        } else if tag == TAG_KEY_RELEASE {
            if h == ARRAY2 && b.len() == 3 && key_from_code_spec(b[2]) is Some {
                Some(EventV::KeyRelease { key: key_from_code_spec(b[2])->Some_0 })
            } else {
                None
            }
        } else if tag == TAG_FOCUS_GRANT {
            if h == ARRAY4 && b.len() >= 7 && b[2] == STR32_MARK {
                let l = be_val(b.subrange(3, 7));
                if b.len() == 17 + l && valid_utf8(b.subrange(7, 7 + l)) && b[7 + l] == INT32_MARK
                    && b[12 + l] == INT32_MARK {
                    Some(EventV::FocusGrant {
                        target: decode_utf8(b.subrange(7, 7 + l)),
                        x: int32_at(b, 7 + l),
                        y: int32_at(b, 12 + l),
                    })
                } else {
                    None
                }
            } else {
                None
            }
        } else if tag == TAG_FOCUS_RELEASE {
            if h == ARRAY1 && b.len() == 2 {
                Some(EventV::FocusRelease)
            } else {
                None
            }
        } else if tag == TAG_HEARTBEAT {
            if h == ARRAY1 && b.len() == 2 {
                Some(EventV::Heartbeat)
            } else {
                None
            }
        } else {
            None
        }
    }
}

/// Relies on `String::from_utf8`: it succeeds on exactly the byte
/// strings that are valid UTF-8, and returns the string they encode.
/// `valid_utf8` and `decode_utf8` are vstd's formalization of the same
/// encoding.
#[verifier::external_body]
pub(crate) fn string_from_utf8(bytes: Vec<u8>) -> (r: Option<String>)
    ensures
        match r {
            Some(s) => valid_utf8(bytes@) && s@ == decode_utf8(bytes@),
            None => !valid_utf8(bytes@),
        },
{
    match String::from_utf8(bytes) {
        Ok(s) => Some(s),
        Err(_) => None,
    }
}

fn read_int32(b: &[u8], i: usize) -> (x: i32)
    requires
        i + 5 <= b@.len(),
    ensures
        x as int == int32_at(b@, i as int),
{
    let blen: usize = b.len();
    proof {
        lemma_pow256_values();
        lemma_be_val_bound(b@.subrange(i + 1, i + 5));
    }
    let u = read_be_val(b, i + 1, 4);
    i32_unrepr_exec(u as u32)
}

fn read_int64(b: &[u8], i: usize) -> (x: i64)
    requires
        i + 9 <= b@.len(),
    ensures
        x as int == int64_at(b@, i as int),
{
    let blen: usize = b.len();
    proof {
        lemma_pow256_values();
        lemma_be_val_bound(b@.subrange(i + 1, i + 9));
    }
    let u = read_be_val(b, i + 1, 8);
    i64_unrepr_exec(u)
}

/// Decodes one event from the bytes of a frame. Fails on exactly the
/// byte strings that encode no event: an unknown tag, a wrong length, a
/// wrong field marker, or a machine name that is not UTF-8.
pub fn decode(b: &[u8]) -> (r: Result<Event, DecodeError>)
    ensures
        match r {
            Ok(e) => spec_decode(b@) == Some(e@),
            Err(_) => spec_decode(b@) is None,
        },
{
    let blen: usize = b.len();
    if blen < 2 {
        return Err(DecodeError::Malformed);
    }
    let h = b[0];
    let tag = b[1];
    if tag == TAG_MOUSE_MOVE {
        if h == ARRAY3 && blen == 12 && b[2] == INT32_MARK && b[7] == INT32_MARK {
            let x = read_int32(b, 2);
            let y = read_int32(b, 7);
            Ok(Event::MouseMove { x, y })
        } else {
            Err(DecodeError::Malformed)
        }
    } else if tag == TAG_MOUSE_CLICK {
        if h == ARRAY2 && blen == 3 {
            match button_from_code(b[2]) {
                Some(button) => Ok(Event::MouseClick { button }),
                None => Err(DecodeError::Malformed),
            }
        } else {
            Err(DecodeError::Malformed)
        }
    } else if tag == TAG_MOUSE_BUTTON_PRESS {
        if h == ARRAY2 && blen == 3 {
            match button_from_code(b[2]) {
                Some(button) => Ok(Event::MouseButtonPress { button }),
                None => Err(DecodeError::Malformed),
            }
        } else {
            Err(DecodeError::Malformed)
        }
    } else if tag == TAG_MOUSE_BUTTON_RELEASE {
        if h == ARRAY2 && blen == 3 {
            match button_from_code(b[2]) {
                Some(button) => Ok(Event::MouseButtonRelease { button }),
                None => Err(DecodeError::Malformed),
            }
        } else {
            Err(DecodeError::Malformed)
        }
    } else if tag == TAG_MOUSE_SCROLL {
        if h == ARRAY3 && blen == 20 && b[2] == INT64_MARK && b[11] == INT64_MARK {
            let delta_x = read_int64(b, 2);
            let delta_y = read_int64(b, 11);
            Ok(Event::MouseScroll { delta_x, delta_y })
        } else {
            Err(DecodeError::Malformed)
        }
    } else if tag == TAG_KEY_PRESS {
        if h == ARRAY2 && blen == 3 {
            match key_from_code(b[2]) {
                Some(key) => Ok(Event::KeyPress { key }),
                None => Err(DecodeError::Malformed),
            }
        } else {
            Err(DecodeError::Malformed)
        }
    } else if tag == TAG_KEY_RELEASE {
        if h == ARRAY2 && blen == 3 {
            match key_from_code(b[2]) {
                Some(key) => Ok(Event::KeyRelease { key }),
                None => Err(DecodeError::Malformed),
            }
        } else {
            Err(DecodeError::Malformed)
        }
    } else if tag == TAG_FOCUS_GRANT {
        if h == ARRAY4 && blen >= 7 && b[2] == STR32_MARK {
            let l64 = read_be_val(b, 3, 4);
            if blen >= 17 && ((blen - 17) as u64) == l64 {
                let l = blen - 17;
                let payload = vstd::slice::slice_subrange(b, 7, 7 + l);
                let pv = vstd::slice::slice_to_vec(payload);
                match string_from_utf8(pv) {
                    Some(target) => {
                        if b[7 + l] == INT32_MARK && b[12 + l] == INT32_MARK {
                            let x = read_int32(b, 7 + l);
                            let y = read_int32(b, 12 + l);
                            Ok(Event::FocusGrant { target, x, y })
                        } else {
                            Err(DecodeError::Malformed)
                        }
                    }
                    None => Err(DecodeError::Malformed),
                }
            } else {
                proof {
                    lemma_be_val_bound(b@.subrange(3, 7));
                }
                Err(DecodeError::Malformed)
            }
        } else {
            Err(DecodeError::Malformed)
        }
    } else if tag == TAG_FOCUS_RELEASE {
        if h == ARRAY1 && blen == 2 {
            Ok(Event::FocusRelease)
        } else {
            Err(DecodeError::Malformed)
        }
    } else if tag == TAG_HEARTBEAT {
        if h == ARRAY1 && blen == 2 {
            Ok(Event::Heartbeat)
        } else {
            Err(DecodeError::Malformed)
        }
    } else {
        Err(DecodeError::Malformed)
    }
}

// ---------------------------------------------------------------------
// The round trip.
// ---------------------------------------------------------------------

/// An encoded event is never empty: it takes at least two bytes, so a
/// zero-length frame can never carry one.
pub proof fn lemma_encode_len(ev: EventV)
    ensures
        spec_encode(ev).len() >= 2,
{
    match ev {
        EventV::MouseMove { x, y } => {
            lemma_be_bytes_len(u32_repr(x), 4);
            lemma_be_bytes_len(u32_repr(y), 4);
        }
        EventV::MouseScroll { delta_x, delta_y } => {
            lemma_be_bytes_len(u64_repr(delta_x), 8);
            lemma_be_bytes_len(u64_repr(delta_y), 8);
        }
        EventV::FocusGrant { target, x, y } => {
            lemma_be_bytes_len(encode_utf8(target).len() as int, 4);
            lemma_be_bytes_len(u32_repr(x), 4);
            lemma_be_bytes_len(u32_repr(y), 4);
        }
        _ => {}
    }
}

/// Decoding the encoding of any well-formed event returns that event.
pub proof fn lemma_decode_encode(ev: EventV)
    requires
        event_wf(ev),
    ensures
        spec_decode(spec_encode(ev)) == Some(ev),
{
    lemma_pow256_values();
    let b = spec_encode(ev);
    match ev {
        EventV::MouseMove { x, y } => {
            lemma_be_bytes_len(u32_repr(x), 4);
            lemma_be_bytes_len(u32_repr(y), 4);
            assert(b.len() == 12);
            assert(b.subrange(3, 7) =~= be_bytes(u32_repr(x), 4));
            assert(b.subrange(8, 12) =~= be_bytes(u32_repr(y), 4));
            lemma_be_val_of_be_bytes(u32_repr(x), 4);
            lemma_be_val_of_be_bytes(u32_repr(y), 4);
        }
        EventV::MouseClick { button } => {
            lemma_button_code_round_trip(button);
        }
        EventV::MouseButtonPress { button } => {
            lemma_button_code_round_trip(button);
        }
        EventV::MouseButtonRelease { button } => {
            lemma_button_code_round_trip(button);
        }
        EventV::MouseScroll { delta_x, delta_y } => {
            lemma_be_bytes_len(u64_repr(delta_x), 8);
            lemma_be_bytes_len(u64_repr(delta_y), 8);
            assert(b.len() == 20);
            assert(b.subrange(3, 11) =~= be_bytes(u64_repr(delta_x), 8));
            assert(b.subrange(12, 20) =~= be_bytes(u64_repr(delta_y), 8));
            lemma_be_val_of_be_bytes(u64_repr(delta_x), 8);
            lemma_be_val_of_be_bytes(u64_repr(delta_y), 8);
        }
        EventV::KeyPress { key } => {
            lemma_key_code_round_trip(key);
        }
        EventV::KeyRelease { key } => {
            lemma_key_code_round_trip(key);
        }
        EventV::FocusGrant { target, x, y } => {
            broadcast use vstd::utf8::encode_utf8_valid_utf8;
            broadcast use vstd::utf8::encode_utf8_decode_utf8;

            let u = encode_utf8(target);
            let l = u.len() as int;
            lemma_be_bytes_len(l, 4);
            lemma_be_bytes_len(u32_repr(x), 4);
            lemma_be_bytes_len(u32_repr(y), 4);
            assert(b.len() == 17 + l);
            assert(b.subrange(3, 7) =~= be_bytes(l, 4));
            lemma_be_val_of_be_bytes(l, 4);
            assert(b.subrange(7, 7 + l) =~= u);
            assert(b[7 + l] == INT32_MARK);
            assert(b[12 + l] == INT32_MARK);
            assert(b.subrange(8 + l, 12 + l) =~= be_bytes(u32_repr(x), 4));
            assert(b.subrange(13 + l, 17 + l) =~= be_bytes(u32_repr(y), 4));
            lemma_be_val_of_be_bytes(u32_repr(x), 4);
            lemma_be_val_of_be_bytes(u32_repr(y), 4);
        }
        EventV::FocusRelease => {}
        EventV::Heartbeat => {}
    }
}


} // verus!
