//! The layers of an envelope.
//!
//! Each layer is a header block, which names the relay that the layer is meant for and carries
//! the sender's extra headers, followed by the ciphertext that only that relay can open.

use vstd::prelude::*;
use vstd::string::*;

use crate::text::join;
use crate::{EncryptionError, PgpError};

verus! {

/// The header block in front of a ciphertext for `relay`.
pub open spec fn layer_header(relay: Seq<char>, headers: Seq<Seq<char>>) -> Seq<char> {
    "\n::\nAnon-To: "@ + relay + "\n"@ + crate::text::joined(headers, "\n"@)
        + "\n\n::\nEncrypted: PGP\n\n"@
}

/// One layer: the header block for `relay`, as UTF-8, and the ciphertext behind it.
pub open spec fn layer(relay: Seq<char>, headers: Seq<Seq<char>>, ciphertext: Seq<u8>) -> Seq<u8> {
    vstd::utf8::encode_utf8(layer_header(relay, headers)) + ciphertext
}

/// A layer tells the formatter where it goes: in any text that starts with the header block
/// for `relay`, whose address holds no line break, the formatter finds a recipient and a body,
/// and the recipient is `relay`.
pub proof fn lemma_header_names_relay(relay: Seq<char>, headers: Seq<Seq<char>>, rest: Seq<char>)
    requires
        !relay.contains('\n'),
    ensures
        crate::format::envelope_parts(layer_header(relay, headers) + rest) matches Ok(parts)
            && parts.0 == relay,
{
    let open = "\n::\nAnon-To: "@;
    let marker = "Anon-To: "@;
    let end = "\n"@;
    let blank = "\n\n"@;
    let close = "\n\n::\nEncrypted: PGP\n\n"@;
    let extra = crate::text::joined(headers, end);
    let text = layer_header(relay, headers) + rest;
    reveal_strlit("\n::\nAnon-To: ");
    reveal_strlit("Anon-To: ");
    reveal_strlit("\n");
    reveal_strlit("\n\n");
    reveal_strlit("\n\n::\nEncrypted: PGP\n\n");
    assert(text =~= open + relay + end + extra + close + rest);
    // The marker stands at 4, behind the four characters in front of it.
    assert(text.subrange(4, 13) =~= marker);
    assert forall|j: int| 0 <= j < 4 implies !crate::text::occurs_at(text, marker, j) by {
        if crate::text::occurs_at(text, marker, j) {
            assert(text.subrange(j, j + 9)[0] == marker[0]);
        }
    }
    crate::text::lemma_find_from_is(text, marker, 0, 4);
    // The address runs to the first line break behind the marker.
    let stop: int = 13 + relay.len() as int;
    assert(text.subrange(stop, stop + 1) =~= end);
    assert forall|j: int| 13 <= j < stop implies !crate::text::occurs_at(text, end, j) by {
        if crate::text::occurs_at(text, end, j) {
            assert(text.subrange(j, j + 1)[0] == end[0]);
            assert(text[j] == relay[j - 13]);
            assert(relay.contains(relay[j - 13]));
        }
    }
    crate::text::lemma_find_from_is(text, end, 13, stop);
    // A blank line follows, at the latest in front of the ciphertext's own marker.
    let gap: int = stop + 1 + extra.len() as int;
    assert(text.subrange(gap, gap + 2) =~= blank);
    crate::text::lemma_find_from(text, blank, stop + 1);
    assert(crate::text::occurs_at(text, blank, gap));
    assert(text.subrange(13, stop) =~= relay);
}

/// Whether each of the headers is a line: not empty, and without a line break.
pub open spec fn are_lines(headers: Seq<Seq<char>>) -> bool {
    forall|i: int|
        0 <= i < headers.len() ==> (#[trigger] headers[i]).len() > 0 && !headers[i].contains('\n')
}

/// Lines that are joined by line breaks neither start nor end with a line break, and hold no
/// two line breaks in a row.
proof fn lemma_joined_lines(headers: Seq<Seq<char>>)
    requires
        are_lines(headers),
        headers.len() > 0,
    ensures
        ({
            let all = crate::text::joined(headers, seq!['\n']);
            &&& all.len() > 0
            &&& all[0] != '\n'
            &&& all.last() != '\n'
            &&& forall|k: int|
                0 <= k < all.len() - 1 ==> !(#[trigger] all[k] == '\n' && all[k + 1] == '\n')
        }),
    decreases headers.len(),
{
    let line = headers.last();
    assert(line.len() > 0);
    assert forall|k: int| 0 <= k < line.len() implies line[k] != '\n' by {
        assert(line.contains(line[k]));
    }
    if headers.len() > 1 {
        let before = crate::text::joined(headers.drop_last(), seq!['\n']);
        lemma_joined_lines(headers.drop_last());
        let all = crate::text::joined(headers, seq!['\n']);
        assert(all =~= before + seq!['\n'] + line);
        assert forall|k: int| 0 <= k < all.len() - 1 implies !(#[trigger] all[k] == '\n'
            && all[k + 1] == '\n') by {
            if k + 1 < before.len() {
                assert(all[k] == before[k] && all[k + 1] == before[k + 1]);
            } else if k + 1 == before.len() {
                assert(all[k] == before.last());
            } else {
                assert(all[k + 1] == line[k - before.len()]);
            }
        }
    }
}

/// What the formatter makes of a layer. In a text that starts with the header block for
/// `relay`, where the address holds no line break and each extra header is a line, the
/// recipient is `relay` and the body is all that follows the extra headers: the mark of the
/// encrypted part, and what stands behind the header block.
pub proof fn lemma_layer_parts(relay: Seq<char>, headers: Seq<Seq<char>>, rest: Seq<char>)
    requires
        !relay.contains('\n'),
        are_lines(headers),
    ensures
        crate::format::envelope_parts(layer_header(relay, headers) + rest) == Ok::<
            (Seq<char>, Seq<char>),
            crate::format::FormatError,
        >((relay, "::\nEncrypted: PGP\n\n"@ + rest)),
{
    let open = "\n::\nAnon-To: "@;
    let marker = "Anon-To: "@;
    let end = "\n"@;
    let blank = "\n\n"@;
    let close = "\n\n::\nEncrypted: PGP\n\n"@;
    let extra = crate::text::joined(headers, end);
    let text = layer_header(relay, headers) + rest;
    reveal_strlit("\n::\nAnon-To: ");
    reveal_strlit("Anon-To: ");
    reveal_strlit("\n");
    reveal_strlit("\n\n");
    reveal_strlit("\n\n::\nEncrypted: PGP\n\n");
    reveal_strlit("::\nEncrypted: PGP\n\n");
    assert(end =~= seq!['\n']);
    assert(text =~= open + relay + end + extra + close + rest);
    assert(text.subrange(4, 13) =~= marker);
    assert forall|j: int| 0 <= j < 4 implies !crate::text::occurs_at(text, marker, j) by {
        if crate::text::occurs_at(text, marker, j) {
            assert(text.subrange(j, j + 9)[0] == marker[0]);
        }
    }
    crate::text::lemma_find_from_is(text, marker, 0, 4);
    let stop: int = 13 + relay.len() as int;
    assert(text.subrange(stop, stop + 1) =~= end);
    assert forall|j: int| 13 <= j < stop implies !crate::text::occurs_at(text, end, j) by {
        if crate::text::occurs_at(text, end, j) {
            assert(text.subrange(j, j + 1)[0] == end[0]);
            assert(text[j] == relay[j - 13]);
            assert(relay.contains(relay[j - 13]));
        }
    }
    crate::text::lemma_find_from_is(text, end, 13, stop);
    // The first blank line is the one behind the extra headers.
    let gap: int = stop + 1 + extra.len() as int;
    assert(text.subrange(gap, gap + 2) =~= blank);
    if headers.len() > 0 {
        lemma_joined_lines(headers);
    } else {
        assert(extra.len() == 0);
    }
    assert forall|j: int| stop + 1 <= j < gap implies !crate::text::occurs_at(text, blank, j) by {
        if crate::text::occurs_at(text, blank, j) {
            assert(text.subrange(j, j + 2)[0] == blank[0]);
            assert(text.subrange(j, j + 2)[1] == blank[1]);
            assert(text[j] == extra[j - stop - 1]);
            if j + 1 < gap {
                assert(text[j + 1] == extra[j + 1 - stop - 1]);
            }
        }
    }
    crate::text::lemma_find_from_is(text, blank, stop + 1, gap);
    assert(text.subrange(13, stop) =~= relay);
    assert(text.subrange(gap + 2, text.len() as int) =~= "::\nEncrypted: PGP\n\n"@ + rest);
}

/// The header block in front of a ciphertext for `relay`.
pub fn make_header(relay: &String, headers: &Vec<String>) -> (block: String)
    ensures
        block@ == layer_header(relay@, headers.deep_view()),
{
    let extra = join(headers, "\n");
    let mut block = String::from_str("\n::\nAnon-To: ");
    block.append(relay.as_str());
    block.append("\n");
    block.append(extra.as_str());
    block.append("\n\n::\nEncrypted: PGP\n\n");
    block
}

/// Closes one layer with what the PGP back-end answered for the relay at `position` of the
/// chain: a ciphertext gets the relay's header block in front of it, a refusal is reported with
/// the position and the relay.
pub fn seal_layer(
    relay: &String,
    headers: &Vec<String>,
    position: usize,
    answer: Result<Vec<u8>, PgpError>,
) -> (sealed: Result<Vec<u8>, EncryptionError>)
    ensures
        match answer {
            Ok(ciphertext) => sealed matches Ok(bytes) && bytes@ == layer(
                relay@,
                headers.deep_view(),
                ciphertext@,
            ),
            Err(cause) => sealed matches Err(e) && e.position == position && e.relay@ == relay@
                && e.cause == cause,
        },
{
    match answer {
        Ok(ciphertext) => {
            let block = make_header(relay, headers);
            let mut bytes = block.as_str().as_bytes_vec();
            let mut rest = ciphertext;
            bytes.append(&mut rest);
            Ok(bytes)
        },
        Err(cause) => Err(EncryptionError { position, relay: relay.clone(), cause }),
    }
}

} // verus!
