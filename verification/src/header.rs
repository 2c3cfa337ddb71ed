//! The header of a lock file is a comment of TOML.

use vstd::prelude::*;

use crate::assemble;
use crate::evaluate;
use crate::merge;
use crate::outside;
use crate::text;
use crate::toml_lock;

verus! {

/// Whether `c` may stand in a comment: it is a tab, or no control character.
pub open spec fn comment_char(c: char) -> bool {
    c == '\t' || (c as u32 >= 0x20 && c as u32 != 0x7f)
}

/// Whether all of `text` may stand in a comment.
pub open spec fn comment_text(text: Seq<char>) -> bool {
    forall|i: int| 0 <= i < text.len() ==> comment_char(#[trigger] text[i])
}

/// Whether `text` is made of comments and blank lines, with its last line
/// ended.
pub open spec fn comment_block(text: Seq<char>) -> bool {
    &&& forall|i: int|
        0 <= i < text.len() ==> #[trigger] text[i] == '\n' || comment_char(text[i])
    &&& forall|i: int|
        #![trigger text[i]]
        0 <= i < text.len() && (i == 0 || text[i - 1] == '\n') ==> text[i] == '#' || text[i]
            == '\n'
    &&& text.len() > 0 ==> text.last() == '\n'
}

/// Two blocks of comments, one after the other, are a block of comments.
proof fn lemma_blocks(a: Seq<char>, b: Seq<char>)
    requires
        comment_block(a),
        comment_block(b),
    ensures
        comment_block(a + b),
{
    let c = a + b;
    assert forall|i: int|
        #![trigger c[i]]
        0 <= i < c.len() && (i == 0 || c[i - 1] == '\n') implies c[i] == '#' || c[i] == '\n' by {
        if i < a.len() {
            assert(c[i] == a[i]);
            if i > 0 {
                assert(c[i - 1] == a[i - 1]);
            }
        } else {
            let j = i - a.len();
            assert(c[i] == b[j]);
            if j > 0 {
                assert(c[i - 1] == b[j - 1]);
            }
        }
    }
}

/// A text that begins with `#` and may stand in a comment is, with the end of
/// its line, a block of comments.
proof fn lemma_line(text: Seq<char>)
    requires
        text.len() > 0,
        text[0] == '#',
        comment_text(text),
    ensures
        comment_block(text + seq!['\n']),
{
    let line = text + seq!['\n'];
    assert forall|i: int|
        #![trigger line[i]]
        0 <= i < line.len() && (i == 0 || line[i - 1] == '\n') implies line[i] == '#' || line[i]
        == '\n' by {
        if 0 < i < line.len() - 1 {
            assert(line[i - 1] == text[i - 1]);
        }
    }
}

/// The header of a lock file is a block of comments, where what it says of its
/// origin may stand in a comment.
pub proof fn law_header_is_comment(meta: toml_lock::MetaModel)
    requires
        comment_text(meta.generated_from),
        comment_text(meta.generated_at),
    ensures
        comment_block(toml_lock::header_text(meta)),
{
    reveal_strlit("# hive-lock.toml\n");
    reveal_strlit("# Auto-generated lock file - DO NOT EDIT MANUALLY\n");
    reveal_strlit("# Generated from: ");
    reveal_strlit("# Generated at: ");
    reveal_strlit("# Regenerate with: colmena generate-toml\n");
    reveal_strlit("\n");
    assert("\n"@ =~= seq!['\n']);
    let l1 = "# hive-lock.toml\n"@;
    let l2 = "# Auto-generated lock file - DO NOT EDIT MANUALLY\n"@;
    let l3 = "# Generated from: "@ + meta.generated_from;
    let l4 = "# Generated at: "@ + meta.generated_at;
    let l5 = "# Regenerate with: colmena generate-toml\n"@;
    assert(comment_text("# Generated from: "@));
    assert(comment_text("# Generated at: "@));
    lemma_line(l3);
    lemma_line(l4);
    assert(comment_block(l1));
    assert(comment_block(l2));
    assert(comment_block(l5));
    assert(comment_block("\n"@));
    lemma_blocks(l1, l2);
    lemma_blocks(l1 + l2, l3 + "\n"@);
    lemma_blocks(l1 + l2 + (l3 + "\n"@), l4 + "\n"@);
    lemma_blocks(l1 + l2 + (l3 + "\n"@) + (l4 + "\n"@), l5);
    lemma_blocks(l1 + l2 + (l3 + "\n"@) + (l4 + "\n"@) + l5, "\n"@);
    assert(toml_lock::header_text(meta) =~= l1 + l2 + (l3 + "\n"@) + (l4 + "\n"@) + l5 + "\n"@);
}

/// A time in UTC may stand in a comment.
proof fn lemma_timestamp_in_comment(time: Seq<char>)
    requires
        outside::utc_timestamp(time),
    ensures
        comment_text(time),
{
    let y = outside::year_len(time);
    let end = time.len() - 6;
    reveal_strlit("+00:00");
    assert forall|i: int| 0 <= i < time.len() implies comment_char(#[trigger] time[i]) by {
        if i >= end {
            assert(time[i] == "+00:00"@[i - end]);
        } else if i >= y + 15 {
            assert(time[i] == '.' || outside::digit(time[i]));
        } else if i < y {
            assert(time[i] == '+' || outside::digit(time[i]));
        }
    }
}

/// The header of each lock file that the generator builds is a block of
/// comments, whatever template the lock file is merged with.
pub proof fn law_built_header_is_comment(
    results: Seq<evaluate::EvaluationModel>,
    deployments: Map<Seq<char>, toml_lock::DeploymentModel>,
    flake_lock_hash: Seq<char>,
    generated_at: Seq<char>,
    generator_version: Seq<char>,
    template: toml_lock::LockModel,
)
    requires
        outside::utc_timestamp(generated_at),
    ensures
        ({
            let lock = assemble::assembled(
                results,
                deployments,
                flake_lock_hash,
                generated_at,
                generator_version,
            );
            &&& comment_block(toml_lock::header_text(lock.meta))
            &&& comment_block(toml_lock::header_text(merge::merged(lock, template).meta))
        }),
{
    let lock = assemble::assembled(
        results,
        deployments,
        flake_lock_hash,
        generated_at,
        generator_version,
    );
    reveal_strlit("flake.nix");
    assert(comment_text("flake.nix"@));
    lemma_timestamp_in_comment(generated_at);
    law_header_is_comment(lock.meta);
    law_header_is_comment(merge::merged(lock, template).meta);
}

/// The text of a lock file is its header, and behind it the encoding as it was
/// given.
pub proof fn law_text_keeps_encoding(lock: toml_lock::LockModel, encoded: Seq<char>)
    ensures
        merge::serialized(lock, Ok(encoded)) matches Ok(content) && content.take(
            toml_lock::header_text(lock.meta).len() as int,
        ) == toml_lock::header_text(lock.meta) && content.skip(
            toml_lock::header_text(lock.meta).len() as int,
        ) == encoded,
{
    let header = toml_lock::header_text(lock.meta);
    assert((header + encoded).take(header.len() as int) =~= header);
    assert((header + encoded).skip(header.len() as int) =~= encoded);
}

/// A decoder that passes over comments makes of the text of a lock file what it
/// makes of the encoding alone: where the encoding gives the lock file back, the
/// text with its header does.
pub proof fn law_text_decodes_as_encoding<T>(
    lock: toml_lock::LockModel,
    encoded: Seq<char>,
    decode: spec_fn(Seq<char>) -> T,
)
    requires
        comment_text(lock.meta.generated_from),
        comment_text(lock.meta.generated_at),
        forall|comments: Seq<char>, rest: Seq<char>|
            comment_block(comments) ==> #[trigger] decode(comments + rest) == decode(rest),
    ensures
        merge::serialized(lock, Ok(encoded)) matches Ok(content) && decode(content) == decode(
            encoded,
        ),
{
    law_header_is_comment(lock.meta);
}

/// With an encoder, and a decoder that passes over comments and gives a lock
/// file back from its encoding, the text of the lock file begins with the
/// header and, header included, decodes to the lock file.
pub proof fn law_text_gives_lock_file_back<E>(
    lock: toml_lock::LockModel,
    encode: spec_fn(toml_lock::LockModel) -> Result<Seq<char>, Seq<char>>,
    decode: spec_fn(Seq<char>) -> Result<toml_lock::LockModel, E>,
)
    requires
        comment_text(lock.meta.generated_from),
        comment_text(lock.meta.generated_at),
        forall|comments: Seq<char>, rest: Seq<char>|
            comment_block(comments) ==> #[trigger] decode(comments + rest) == decode(rest),
        encode(lock) matches Ok(encoded) ==> decode(encoded) == Ok::<toml_lock::LockModel, E>(lock),
    ensures
        merge::serialized(lock, encode(lock)) is Ok <==> encode(lock) is Ok,
        merge::serialized(lock, encode(lock)) matches Ok(content) ==> text::has_prefix(
            content,
            toml_lock::header_text(lock.meta),
        ) && decode(content) == Ok::<toml_lock::LockModel, E>(lock),
{
    if let Ok(encoded) = encode(lock) {
        law_text_keeps_encoding(lock, encoded);
        law_text_decodes_as_encoding(lock, encoded, decode);
    }
}

} // verus!
