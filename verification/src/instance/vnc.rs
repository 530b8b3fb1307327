//! The password of the VNC Display, and what the noVNC Viewer in front of it is started with.

use vstd::prelude::*;

use crate::qemu::json;
use crate::text;

verus! {

/// The glyphs of a password: letters and digits without those that look alike.
pub const GLYPHS: [char; 56] = [
    'A', 'B', 'C', 'D', 'E', 'F', 'G', 'H', 'J', 'K', 'L', 'M', 'N', 'P', 'Q', 'R', 'S', 'T', 'U',
    'V', 'W', 'X', 'Y', 'Z', 'a', 'b', 'c', 'd', 'e', 'f', 'g', 'h', 'i', 'j', 'k', 'm', 'n', 'p',
    'q', 'r', 's', 't', 'u', 'v', 'w', 'x', 'y', 'z', '2', '3', '4', '5', '6', '7', '8', '9',
];

/// How many characters a password has; the VNC protocol ignores any beyond.
pub const PASSWORD_LEN: usize = 8;

/// The glyph that a random byte selects. Bytes beyond the largest multiple of the number of
/// glyphs select none, so that every glyph is selected by equally many bytes.
pub open spec fn glyph_of(b: u8) -> Option<char> {
    if b < 224 {
        Some(GLYPHS[b as int % 56])
    } else {
        None
    }
}

/// The glyphs that random bytes select, in order.
pub open spec fn glyphs_of(bytes: Seq<u8>) -> Seq<char>
    decreases bytes.len(),
{
    if bytes.len() == 0 {
        Seq::empty()
    } else {
        let before = glyphs_of(bytes.drop_last());
        match glyph_of(bytes.last()) {
            Some(c) => before.push(c),
            None => before,
        }
    }
}

fn glyph(b: u8) -> (r: Option<char>)
    ensures
        r == glyph_of(b),
{
    if b < 224 {
        let i: usize = (b % 56) as usize;
        Some(GLYPHS[i])
    } else {
        None
    }
}

/// The password that random bytes make: their first glyphs, once there are enough.
pub fn password_from(bytes: &Vec<u8>) -> (r: Option<String>)
    ensures
        match r {
            Some(p) => glyphs_of(bytes@).len() >= PASSWORD_LEN && p@ == glyphs_of(bytes@).take(
                PASSWORD_LEN as int,
            ),
            None => glyphs_of(bytes@).len() < PASSWORD_LEN,
        },
{
    let mut chosen: Vec<char> = Vec::new();
    let mut i: usize = 0;
    assert(bytes@.take(0) =~= Seq::empty());
    while i < bytes.len()
        invariant
            i <= bytes@.len(),
            chosen@ == glyphs_of(bytes@.take(i as int)),
        decreases bytes@.len() - i,
    {
        assert(bytes@.take(i + 1).drop_last() =~= bytes@.take(i as int));
        if let Some(c) = glyph(bytes[i]) {
            chosen.push(c);
        }
        i = i + 1;
    }
    assert(bytes@.take(bytes@.len() as int) =~= bytes@);
    if chosen.len() < PASSWORD_LEN {
        None
    } else {
        let p = text::from_chars(&chosen, 0, PASSWORD_LEN);
        assert(p@ =~= glyphs_of(bytes@).take(PASSWORD_LEN as int));
        Some(p)
    }
}

/// `getrandom::fill` on one byte: a byte from the system's random source, or `None` where the
/// source is unavailable. Nothing is stated of the byte, which is random.
#[verifier::external_body]
fn random_byte() -> (r: Option<u8>) {
    let mut byte = [0u8; 1];
    match getrandom::fill(&mut byte) {
        Ok(()) => Some(byte[0]),
        Err(_) => None,
    }
}

/// A byte that the system's random source can yield.
pub closed spec fn can_be_drawn(byte: u8) -> bool {
    call_ensures(random_byte, (), Some(byte))
}

/// The system's random source can be unavailable.
pub closed spec fn can_run_dry() -> bool {
    call_ensures(random_byte, (), None)
}

/// Bytes that were all drawn from the system's random source.
pub open spec fn are_drawn(bytes: Seq<u8>) -> bool {
    forall|i: int| 0 <= i < bytes.len() ==> can_be_drawn(#[trigger] bytes[i])
}

/// A text that can be a password: of the right length, and made of glyphs.
pub open spec fn is_password(p: Seq<char>) -> bool {
    p.len() == PASSWORD_LEN && forall|i: int|
        0 <= i < p.len() ==> exists|k: int|
            0 <= k < GLYPHS@.len() && #[trigger] p[i] == #[trigger] GLYPHS[k]
}

proof fn lemma_glyphs(bytes: Seq<u8>)
    ensures
        forall|i: int|
            0 <= i < glyphs_of(bytes).len() ==> exists|k: int|
                0 <= k < GLYPHS@.len() && #[trigger] glyphs_of(bytes)[i] == #[trigger] GLYPHS[k],
    decreases bytes.len(),
{
    if bytes.len() > 0 {
        lemma_glyphs(bytes.drop_last());
        let before = glyphs_of(bytes.drop_last());
        let all = glyphs_of(bytes);
        assert forall|i: int| 0 <= i < all.len() implies exists|k: int|
            0 <= k < GLYPHS@.len() && #[trigger] all[i] == #[trigger] GLYPHS[k] by {
            if i < before.len() {
                assert(all[i] == before[i]);
            } else {
                assert(all[i] == GLYPHS[bytes.last() as int % 56]);
            }
        }
    }
}

/// A fresh password for the VNC Display: the first glyphs of bytes that were drawn from the
/// system's random source. There is none where the source is unavailable, or where so many
/// bytes as a `u64` counts did not select enough glyphs. Which password comes is random.
pub fn generate_vnc_password() -> (r: Option<String>)
    ensures
        match r {
            Some(p) => is_password(p@) && exists|bytes: Seq<u8>| #[trigger]
                are_drawn(bytes) && glyphs_of(bytes).len() >= PASSWORD_LEN && p@ == glyphs_of(
                    bytes,
                ).take(PASSWORD_LEN as int),
            None => can_run_dry() || exists|bytes: Seq<u8>| #[trigger]
                are_drawn(bytes) && bytes.len() == u64::MAX && glyphs_of(bytes).len()
                    < PASSWORD_LEN,
        },
{
    let mut bytes: Vec<u8> = Vec::new();
    let mut left: u64 = u64::MAX;
    assert(glyphs_of(bytes@).len() == 0);
    while left > 0
        invariant
            are_drawn(bytes@),
            bytes@.len() == u64::MAX - left,
            glyphs_of(bytes@).len() < PASSWORD_LEN,
        decreases left,
    {
        match random_byte() {
            Some(b) => bytes.push(b),
            None => return None,
        }
        assert(are_drawn(bytes@));
        if let Some(p) = password_from(&bytes) {
            proof {
                lemma_glyphs(bytes@);
                assert forall|i: int| 0 <= i < p@.len() implies exists|k: int|
                    0 <= k < GLYPHS@.len() && #[trigger] p@[i] == #[trigger] GLYPHS[k] by {
                    assert(p@[i] == glyphs_of(bytes@)[i]);
                }
            }
            return Some(p);
        }
        left = left - 1;
    }
    None
}

/// The arguments of `set_password`, as JSON text.
pub open spec fn set_password_args(password: Seq<char>) -> Seq<char> {
    "{\"password\":"@ + json::json_quoted(password) + ",\"protocol\":\"vnc\"}"@
}

/// The arguments of `set_password`, as JSON text.
pub fn set_password(password: &str) -> (r: String)
    ensures
        r@ == set_password_args(password@),
{
    let quoted = json::quote(password);
    text::cat3("{\"password\":", quoted.as_str(), ",\"protocol\":\"vnc\"}")
}

/// What the noVNC Viewer is started with.
#[derive(Debug, Clone, PartialEq, Eq)]
pub struct ViewerOptions {
    /// The address it binds to.
    pub host: String,
    /// The port it listens on.
    pub port: u16,
    /// The password that people give it.
    pub password: String,
    /// The user name that people give it; any where there is none.
    pub user: Option<String>,
    /// The address of the VNC Display.
    pub vnc_host: String,
    /// The port of the VNC Display.
    pub vnc_port: u16,
    /// The password of the VNC Display.
    pub vnc_password: String,
}

// ---------------------------------------------------------------------------
// Laws
// ---------------------------------------------------------------------------

/// The choice of a glyph is not biased: each is selected by exactly four bytes.
pub proof fn glyphs_are_equally_likely(g: int)
    requires
        0 <= g < 56,
    ensures
        forall|b: u8|
            (#[trigger] glyph_of(b) is Some && b as int % 56 == g) <==> (b == g || b == g + 56 || b
                == g + 112 || b == g + 168),
{
}

/// The glyphs are the letters and the digits without those that look alike, and every one of them
/// is selected by some byte, whatever its place.
pub proof fn every_glyph_can_be_selected(g: int, b: u8)
    ensures
        ({
            let all = "ABCDEFGHJKLMNPQRSTUVWXYZabcdefghijkmnpqrstuvwxyz23456789"@;
            &&& GLYPHS@.len() == all.len()
            &&& 0 <= g < GLYPHS@.len() ==> GLYPHS@[g] == all[g]
        }),
        0 <= g < GLYPHS@.len() ==> glyph_of(g as u8) == Some(GLYPHS@[g]),
        glyph_of(b) is Some <==> b < 4 * GLYPHS@.len(),
        glyph_of(b) matches Some(c) ==> c == GLYPHS@[b as int % GLYPHS@.len() as int],
{
    reveal_strlit("ABCDEFGHJKLMNPQRSTUVWXYZabcdefghijkmnpqrstuvwxyz23456789");
    if 0 <= g < GLYPHS@.len() {
        assert(GLYPHS[g] == GLYPHS@[g]);
    }
}

/// Bytes select their glyphs one by one, in order; those that select none are passed over.
pub proof fn glyphs_are_selected_in_order(bytes: Seq<u8>)
    ensures
        glyphs_of(bytes) == bytes.filter(|b: u8| b < 224).map_values(
            |b: u8| GLYPHS@[b as int % 56],
        ),
    decreases bytes.len(),
{
    reveal(Seq::filter);
    let p = |b: u8| b < 224;
    let t = |b: u8| GLYPHS@[b as int % 56];
    if bytes.len() == 0 {
        assert(bytes.filter(p).map_values(t) =~= Seq::empty());
    } else {
        let init = bytes.drop_last();
        glyphs_are_selected_in_order(init);
        if p(bytes.last()) {
            assert(bytes.filter(p) == init.filter(p).push(bytes.last()));
            assert(bytes.filter(p).map_values(t) =~= init.filter(p).map_values(t).push(
                t(bytes.last()),
            ));
        }
    }
}

/// A password is eight glyphs, and it is what QEMU is told.
pub proof fn passwords_are_eight_glyphs(p: Seq<char>)
    ensures
        is_password(p) <==> p.len() == 8 && forall|i: int|
            0 <= i < p.len() ==> GLYPHS@.contains(#[trigger] p[i]),
        set_password_args(p) == "{\"password\":"@ + json::json_quoted(p)
            + ",\"protocol\":\"vnc\"}"@,
        text::has_infix(set_password_args(p), json::json_quoted(p)),
{
    text::parts_are_found(
        "{\"password\":"@,
        json::json_quoted(p),
        ",\"protocol\":\"vnc\"}"@,
        set_password_args(p),
    );
    if is_password(p) {
        assert forall|i: int| 0 <= i < p.len() implies GLYPHS@.contains(#[trigger] p[i]) by {
            let k = choose|k: int|
                0 <= k < GLYPHS@.len() && #[trigger] p[i] == #[trigger] GLYPHS[k];
            assert(GLYPHS@[k] == p[i]);
        }
    }
    if p.len() == 8 && (forall|i: int| 0 <= i < p.len() ==> GLYPHS@.contains(#[trigger] p[i])) {
        assert forall|i: int| 0 <= i < p.len() implies exists|k: int|
            0 <= k < GLYPHS@.len() && #[trigger] p[i] == #[trigger] GLYPHS[k] by {
            assert(GLYPHS@.contains(p[i]));
            let k = choose|k: int| 0 <= k < GLYPHS@.len() && GLYPHS@[k] == p[i];
            assert(GLYPHS[k] == p[i]);
        }
    }
}

/// Bytes are drawn where each of them is, the first and the last included.
pub proof fn bytes_are_drawn_one_by_one(bytes: Seq<u8>, b: u8)
    ensures
        are_drawn(Seq::empty()),
        are_drawn(bytes.push(b)) <==> are_drawn(bytes) && can_be_drawn(b),
{
    if are_drawn(bytes.push(b)) {
        assert forall|i: int| 0 <= i < bytes.len() implies can_be_drawn(#[trigger] bytes[i]) by {
            assert(bytes.push(b)[i] == bytes[i]);
        }
        assert(bytes.push(b)[bytes.len() as int] == b);
    }
}

} // verus!
