//! The lengths of the options in a DHCP message, and what is handed to the
//! decoder in place of options with a length that they should not have.

use crate::dhcp::{
    FIXED_LEN, OPT_BASE_TIME, OPT_CLIENT_FQDN, OPT_CLIENT_NETWORK_INTERFACE, OPT_END, OPT_PAD,
    OPT_QUERY_END_TIME, OPT_RAPID_COMMIT,
};
use vstd::prelude::*;

verus! {

/// Whether an option should have data of this length. The options named here
/// have a fixed length, or a least one.
pub open spec fn takes_len(code: u8, len: int) -> bool {
    if code == OPT_CLIENT_FQDN {
        len >= 3
    } else if has_fixed_len(code) {
        len == fixed_len(code)
    } else {
        true
    }
}

/// Whether the data of an option has a fixed length.
pub open spec fn has_fixed_len(code: u8) -> bool {
    code == OPT_RAPID_COMMIT || code == OPT_CLIENT_NETWORK_INTERFACE || OPT_BASE_TIME <= code
        <= OPT_QUERY_END_TIME
}

/// The length of the data of an option that has a fixed one.
pub open spec fn fixed_len(code: u8) -> u8 {
    if code == OPT_RAPID_COMMIT {
        0
    } else if code == OPT_CLIENT_NETWORK_INTERFACE {
        3
    } else {
        4
    }
}

/// Whether the options that `bytes` spells, after `len` bytes of data of the
/// option with the given code, have lengths that they should have. Data that
/// comes in several pieces, one right after another, is put together.
pub open spec fn lengths_fit(bytes: Seq<u8>, code: u8, len: int) -> bool
    decreases bytes.len(),
{
    if bytes.len() == 0 || bytes[0] == OPT_END {
        takes_len(code, len)
    } else if bytes[0] == OPT_PAD {
        takes_len(code, len) && lengths_fit(bytes.skip(1), OPT_PAD, 0)
    } else {
        &&& bytes[0] != code ==> takes_len(code, len)
        &&& bytes.len() >= 2 && bytes.len() >= 2 + bytes[1] ==> lengths_fit(
            bytes.skip(2 + bytes[1]),
            bytes[0],
            if bytes[0] == code {
                len + bytes[1]
            } else {
                bytes[1] as int
            },
        )
    }
}

/// The bytes of an option, given as the pieces that it came in and as the data
/// in them: the pieces themselves, where the data has a length that it should
/// have. Of data that is too long, as much as there should be is kept. `None`
/// where there is too little.
pub open spec fn mended(code: u8, pieces: Seq<u8>, data: Seq<u8>) -> Option<Seq<u8>> {
    if takes_len(code, data.len() as int) {
        Some(pieces)
    } else if has_fixed_len(code) && data.len() > fixed_len(code) {
        Some(seq![code, fixed_len(code)] + data.take(fixed_len(code) as int))
    } else {
        None
    }
}

/// The options that `bytes` spells, after an option of which these pieces and
/// this data have come, each mended. They end before the first that has too
/// little data.
pub open spec fn tidied(bytes: Seq<u8>, code: u8, pieces: Seq<u8>, data: Seq<u8>) -> Seq<u8>
    decreases bytes.len(),
{
    if bytes.len() > 0 && bytes[0] != OPT_END && bytes[0] != OPT_PAD && bytes[0] == code {
        if bytes.len() < 2 || bytes.len() < 2 + bytes[1] {
            pieces + bytes
        } else {
            tidied(
                bytes.skip(2 + bytes[1]),
                code,
                pieces + bytes.take(2 + bytes[1]),
                data + bytes.subrange(2, 2 + bytes[1]),
            )
        }
    } else {
        match mended(code, pieces, data) {
            Some(option) => option + (if bytes.len() == 0 || bytes[0] == OPT_END {
                bytes
            } else if bytes[0] == OPT_PAD {
                seq![OPT_PAD] + tidied(bytes.skip(1), OPT_PAD, Seq::empty(), Seq::empty())
            } else if bytes.len() < 2 || bytes.len() < 2 + bytes[1] {
                bytes
            } else {
                tidied(
                    bytes.skip(2 + bytes[1]),
                    bytes[0],
                    bytes.take(2 + bytes[1]),
                    bytes.subrange(2, 2 + bytes[1]),
                )
            }),
            None => Seq::empty(),
        }
    }
}

/// The message with its options mended.
pub open spec fn tidied_message(payload: Seq<u8>) -> Seq<u8> {
    payload.take(FIXED_LEN as int) + tidied(
        payload.skip(FIXED_LEN as int),
        OPT_PAD,
        Seq::empty(),
        Seq::empty(),
    )
}

fn len_is_taken(code: u8, len: usize) -> (r: bool)
    ensures
        r == takes_len(code, len as int),
{
    if code == OPT_CLIENT_FQDN {
        len >= 3
    } else if len_is_fixed(code) {
        len == len_when_fixed(code) as usize
    } else {
        true
    }
}

fn len_is_fixed(code: u8) -> (r: bool)
    ensures
        r == has_fixed_len(code),
{
    code == OPT_RAPID_COMMIT || code == OPT_CLIENT_NETWORK_INTERFACE || (OPT_BASE_TIME <= code
        && code <= OPT_QUERY_END_TIME)
}

fn len_when_fixed(code: u8) -> (r: u8)
    ensures
        r == fixed_len(code),
{
    if code == OPT_RAPID_COMMIT {
        0
    } else if code == OPT_CLIENT_NETWORK_INTERFACE {
        3
    } else {
        4
    }
}

/// Appends an option, mended; says whether it has enough data.
fn push_mended(out: &mut Vec<u8>, code: u8, pieces: &[u8], data: &Vec<u8>) -> (r: bool)
    ensures
        r == mended(code, pieces@, data@) is Some,
        final(out)@ == if r {
            old(out)@ + mended(code, pieces@, data@)->0
        } else {
            old(out)@
        },
{
    if len_is_taken(code, data.len()) {
        out.extend_from_slice(pieces);
        return true;
    }
    let len: u8 = len_when_fixed(code);
    if !len_is_fixed(code) || data.len() <= len as usize {
        return false;
    }
    out.push(code);
    out.push(len);
    out.extend_from_slice(vstd::slice::slice_subrange(data.as_slice(), 0, len as usize));
    assert(out@ =~= old(out)@ + (seq![code, len] + data@.take(len as int)));
    true
}

/// Mends the options of a message.
#[verifier::rlimit(40)]
#[verifier::spinoff_prover]
pub fn tidy_message(payload: &[u8]) -> (r: Vec<u8>)
    requires
        payload@.len() >= FIXED_LEN,
    ensures
        r@ == tidied_message(payload@),
{
    let n: usize = payload.len();
    let mut out: Vec<u8> = Vec::new();
    out.extend_from_slice(vstd::slice::slice_subrange(payload, 0, FIXED_LEN));
    let mut code: u8 = OPT_PAD;
    let mut data: Vec<u8> = Vec::new();
    let mut start: usize = FIXED_LEN;
    let mut at: usize = FIXED_LEN;
    proof {
        assert(payload@.subrange(start as int, at as int) =~= Seq::empty());
        assert(out@ =~= payload@.take(FIXED_LEN as int));
        assert(data@ =~= Seq::empty());
    }
    loop
        invariant
            FIXED_LEN <= start <= at <= n,
            n == payload@.len(),
            tidied_message(payload@) == out@ + tidied(
                payload@.skip(at as int),
                code,
                payload@.subrange(start as int, at as int),
                data@,
            ),
        decreases n - at,
    {
        let ghost before = out@;
        let ghost rest = payload@.skip(at as int);
        let ended: bool = at == n || payload[at] == OPT_END;
        let pad: bool = !ended && payload[at] == OPT_PAD;
        let same: bool = !ended && !pad && payload[at] == code;
        if !same && !push_mended(
            &mut out,
            code,
            vstd::slice::slice_subrange(payload, start, at),
            &data,
        ) {
            assert(out@ =~= out@ + Seq::<u8>::empty());
            return out;
        }
        if pad {
            out.push(OPT_PAD);
            at += 1;
            code = OPT_PAD;
            start = at;
            data = Vec::new();
            proof {
                assert(rest.skip(1) =~= payload@.skip(at as int));
                assert(payload@.subrange(start as int, at as int) =~= Seq::empty());
                assert(data@ =~= Seq::empty());
                let next = tidied(payload@.skip(at as int), code, Seq::empty(), Seq::empty());
                assert(tidied_message(payload@) =~= out@ + next);
            }
            continue;
        }
        if ended || n - at < 2 || n - at < 2 + payload[at + 1] as usize {
            if same {
                out.extend_from_slice(vstd::slice::slice_subrange(payload, start, at));
            }
            out.extend_from_slice(vstd::slice::slice_subrange(payload, at, n));
            assert(rest =~= payload@.subrange(at as int, n as int));
            assert(out@ =~= tidied_message(payload@));
            return out;
        }
        let len: usize = payload[at + 1] as usize;
        if !same {
            code = payload[at];
            start = at;
            data = Vec::new();
        }
        let ghost had = data@;
        data.extend_from_slice(vstd::slice::slice_subrange(payload, at + 2, at + 2 + len));
        at += 2 + len;
        proof {
            let held = payload@.subrange(start as int, at as int);
            assert(rest.skip(2 + len) =~= payload@.skip(at as int));
            assert(rest.subrange(2, 2 + len) =~= payload@.subrange(at - len, at as int));
            if same {
                assert(held =~= payload@.subrange(start as int, at - 2 - len) + rest.take(2 + len));
                assert(data@ =~= had + rest.subrange(2, 2 + len));
            } else {
                assert(held =~= rest.take(2 + len));
                assert(data@ =~= rest.subrange(2, 2 + len));
            }
            let next = tidied(payload@.skip(at as int), code, held, data@);
            assert(tidied_message(payload@) =~= out@ + next);
        }
    }
}

/// Whether `bytes` are pieces of the option with the given code, with `len`
/// bytes of data in all.
spec fn is_run(bytes: Seq<u8>, code: u8, len: int) -> bool
    decreases bytes.len(),
{
    if bytes.len() == 0 {
        len == 0
    } else {
        &&& bytes.len() >= 2
        &&& bytes.len() >= 2 + bytes[1]
        &&& bytes[0] == code
        &&& is_run(bytes.skip(2 + bytes[1]), code, len - bytes[1])
    }
}

proof fn lemma_run_grows(bytes: Seq<u8>, code: u8, len: int, piece: Seq<u8>)
    requires
        is_run(bytes, code, len),
        piece.len() >= 2,
        piece.len() == 2 + piece[1],
        piece[0] == code,
    ensures
        is_run(bytes + piece, code, len + piece[1]),
    decreases bytes.len(),
{
    let all = bytes + piece;
    if bytes.len() == 0 {
        assert(all =~= piece);
        assert(piece.skip(2 + piece[1]) =~= Seq::empty());
        assert(is_run(piece.skip(2 + piece[1]), code, 0));
    } else {
        lemma_run_grows(bytes.skip(2 + bytes[1]), code, len - bytes[1], piece);
        assert(all.skip(2 + all[1]) =~= bytes.skip(2 + bytes[1]) + piece);
    }
}

proof fn lemma_run_goes_on(bytes: Seq<u8>, code: u8, len: int, rest: Seq<u8>, before: int)
    requires
        is_run(bytes, code, len),
        code != OPT_PAD,
        code != OPT_END,
    ensures
        lengths_fit(bytes + rest, code, before) == lengths_fit(rest, code, before + len),
    decreases bytes.len(),
{
    let all = bytes + rest;
    if bytes.len() == 0 {
        assert(all =~= rest);
    } else {
        assert(all.skip(2 + all[1]) =~= bytes.skip(2 + bytes[1]) + rest);
        lemma_run_goes_on(
            bytes.skip(2 + bytes[1]),
            code,
            len - bytes[1],
            rest,
            before + bytes[1],
        );
    }
}

proof fn lemma_run_begins(
    bytes: Seq<u8>,
    code: u8,
    len: int,
    rest: Seq<u8>,
    last: u8,
    last_len: int,
)
    requires
        is_run(bytes, code, len),
        bytes.len() > 0,
        code != OPT_PAD,
        code != OPT_END,
        code != last,
        takes_len(last, last_len),
    ensures
        lengths_fit(bytes + rest, last, last_len) == lengths_fit(rest, code, len),
{
    let all = bytes + rest;
    assert(all.skip(2 + all[1]) =~= bytes.skip(2 + bytes[1]) + rest);
    lemma_run_goes_on(
        bytes.skip(2 + bytes[1]),
        code,
        len - bytes[1],
        rest,
        bytes[1] as int,
    );
}

/// A mended option has a length that it should have, whatever comes after it.
proof fn lemma_mended_fits(
    code: u8,
    pieces: Seq<u8>,
    data: Seq<u8>,
    rest: Seq<u8>,
    last: u8,
    last_len: int,
)
    requires
        mended(code, pieces, data) is Some,
        is_run(pieces, code, data.len() as int),
        pieces.len() > 0,
        code != OPT_PAD,
        code != OPT_END,
        code != last,
        takes_len(last, last_len),
    ensures
        exists|len: int| #[trigger]
            takes_len(code, len) && lengths_fit(
                mended(code, pieces, data)->0 + rest,
                last,
                last_len,
            ) == lengths_fit(rest, code, len),
{
    let option = mended(code, pieces, data)->0;
    if takes_len(code, data.len() as int) {
        lemma_run_begins(pieces, code, data.len() as int, rest, last, last_len);
    } else {
        let len = fixed_len(code) as int;
        assert(option.skip(2 + option[1]) =~= Seq::empty());
        assert(is_run(option.skip(2 + option[1]), code, 0));
        assert(is_run(option, code, len));
        lemma_run_begins(option, code, len, rest, last, last_len);
        assert(takes_len(code, len));
    }
}

/// Mended options have lengths that they should have.
proof fn lemma_tidied_fits(
    bytes: Seq<u8>,
    code: u8,
    pieces: Seq<u8>,
    data: Seq<u8>,
    last: u8,
    last_len: int,
)
    requires
        takes_len(last, last_len),
        is_run(pieces, code, data.len() as int),
        code == OPT_PAD ==> pieces.len() == 0 && last == OPT_PAD,
        code != OPT_PAD ==> pieces.len() > 0 && code != last && code != OPT_END,
    ensures
        lengths_fit(tidied(bytes, code, pieces, data), last, last_len),
    decreases bytes.len(),
{
    let result = tidied(bytes, code, pieces, data);
    if bytes.len() > 0 && bytes[0] != OPT_END && bytes[0] != OPT_PAD && bytes[0] == code {
        if bytes.len() < 2 || bytes.len() < 2 + bytes[1] {
            lemma_run_begins(pieces, code, data.len() as int, bytes, last, last_len);
        } else {
            let piece = bytes.take(2 + bytes[1]);
            lemma_run_grows(pieces, code, data.len() as int, piece);
            lemma_tidied_fits(
                bytes.skip(2 + bytes[1]),
                code,
                pieces + piece,
                data + bytes.subrange(2, 2 + bytes[1]),
                last,
                last_len,
            );
        }
    } else if let Some(option) = mended(code, pieces, data) {
        let rest = if bytes.len() == 0 || bytes[0] == OPT_END {
            bytes
        } else if bytes[0] == OPT_PAD {
            seq![OPT_PAD] + tidied(bytes.skip(1), OPT_PAD, Seq::empty(), Seq::empty())
        } else if bytes.len() < 2 || bytes.len() < 2 + bytes[1] {
            bytes
        } else {
            tidied(
                bytes.skip(2 + bytes[1]),
                bytes[0],
                bytes.take(2 + bytes[1]),
                bytes.subrange(2, 2 + bytes[1]),
            )
        };
        assert(result == option + rest);
        let after = if code == OPT_PAD {
            assert(result =~= rest);
            last_len
        } else {
            lemma_mended_fits(code, pieces, data, rest, last, last_len);
            choose|len: int| #[trigger]
                takes_len(code, len) && lengths_fit(option + rest, last, last_len) == lengths_fit(
                    rest,
                    code,
                    len,
                )
        };
        assert(takes_len(code, after));
        if bytes.len() > 0 && bytes[0] == OPT_PAD {
            let next = tidied(bytes.skip(1), OPT_PAD, Seq::empty(), Seq::empty());
            lemma_tidied_fits(bytes.skip(1), OPT_PAD, Seq::empty(), Seq::empty(), OPT_PAD, 0);
            assert(rest.skip(1) =~= next);
        } else if bytes.len() > 0 && bytes[0] != OPT_END && bytes.len() >= 2 && bytes.len() >= 2
            + bytes[1] {
            let piece = bytes.take(2 + bytes[1]);
            lemma_run_grows(Seq::empty(), bytes[0], 0, piece);
            assert(Seq::<u8>::empty() + piece =~= piece);
            lemma_tidied_fits(
                bytes.skip(2 + bytes[1]),
                bytes[0],
                piece,
                bytes.subrange(2, 2 + bytes[1]),
                code,
                after,
            );
        }
        assert(lengths_fit(rest, code, after));
    }
}

proof fn lemma_fitting_is_kept(bytes: Seq<u8>, code: u8, pieces: Seq<u8>, data: Seq<u8>)
    requires
        lengths_fit(bytes, code, data.len() as int),
    ensures
        tidied(bytes, code, pieces, data) == pieces + bytes,
    decreases bytes.len(),
{
    if bytes.len() == 0 || bytes[0] == OPT_END {
    } else if bytes[0] == OPT_PAD {
        lemma_fitting_is_kept(bytes.skip(1), OPT_PAD, Seq::empty(), Seq::empty());
        assert(pieces + (seq![OPT_PAD] + (Seq::<u8>::empty() + bytes.skip(1))) =~= pieces + bytes);
    } else if bytes.len() >= 2 && bytes.len() >= 2 + bytes[1] {
        let rest = bytes.skip(2 + bytes[1]);
        let piece = bytes.take(2 + bytes[1]);
        let more = bytes.subrange(2, 2 + bytes[1]);
        assert(piece + rest =~= bytes);
        if bytes[0] == code {
            lemma_fitting_is_kept(rest, code, pieces + piece, data + more);
            assert(pieces + piece + rest =~= pieces + bytes);
        } else {
            lemma_fitting_is_kept(rest, bytes[0], piece, more);
        }
    }
}

/// A message whose options have lengths that they should have is handed on as it
/// is.
pub proof fn law_fitting_message_is_kept(payload: Seq<u8>)
    requires
        payload.len() >= FIXED_LEN,
        lengths_fit(payload.skip(FIXED_LEN as int), OPT_PAD, 0),
    ensures
        tidied_message(payload) == payload,
{
    let options = payload.skip(FIXED_LEN as int);
    lemma_fitting_is_kept(options, OPT_PAD, Seq::empty(), Seq::empty());
    assert(payload.take(FIXED_LEN as int) + (Seq::<u8>::empty() + options) =~= payload);
}

/// Whatever the options of a message are, those that are handed on have lengths
/// that they should have, and what comes before the options is kept.
pub proof fn law_tidied_message_fits(payload: Seq<u8>)
    requires
        payload.len() >= FIXED_LEN,
    ensures
        tidied_message(payload).len() >= FIXED_LEN,
        tidied_message(payload).take(FIXED_LEN as int) == payload.take(FIXED_LEN as int),
        lengths_fit(tidied_message(payload).skip(FIXED_LEN as int), OPT_PAD, 0),
{
    let options = payload.skip(FIXED_LEN as int);
    let next = tidied(options, OPT_PAD, Seq::empty(), Seq::empty());
    lemma_tidied_fits(options, OPT_PAD, Seq::empty(), Seq::empty(), OPT_PAD, 0);
    assert(tidied_message(payload).skip(FIXED_LEN as int) =~= next);
    assert(tidied_message(payload).take(FIXED_LEN as int) =~= payload.take(FIXED_LEN as int));
}

} // verus!
