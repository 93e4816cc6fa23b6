//! What holds of a conversation: how it is saved, what is read of it, what of it a model
//! gets to see and what of it is shown.

use vstd::prelude::*;
use crate::agent_bridge::context_laws::{
    counts, is_last_summary, law_context_after_summary, law_context_keeps_all_since_summary,
    law_context_without_summary, numbered,
};
use crate::agent_bridge::conversation::{
    back_over, block_images, block_texts, display_of, is_compaction, kept_count, last_summary,
    law_back_over, loaded_context, role_of, role_text, rows_from_summary, saved_row, spoken_between,
    stored_message, type_of, type_text, AgentMessageView, MessageRole, MessageType,
};
use crate::agent_bridge::images::{
    block_image, block_ref, block_url, blocks_of, bytes_of, data_uri, data_url_of, extension_for, externalized, file_of_block, inlined, inlined_block, last_dot, media_for, media_of_file, pending_in, refs_in, split_comma, with_url, ImageFileView, PendingImageView, SavedImageView,
};
use crate::agent_bridge::messages::{context_rows, session_context};
use crate::agent_bridge::rows::StoredMessageView;
use crate::agent_bridge::tables::TablesView;
use crate::json::{json_parsed, json_text, JsonV};
use crate::sqlite::member_number;
use crate::text::{
    first_at, first_where, has_prefix, has_suffix, is_first, lemma_first, lemma_has_first,
};

verus! {

// ── Messages and rows ──

/// What roles and types are called in the store.
pub proof fn law_names(role: MessageRole, t: MessageType)
    ensures
        role is User ==> role_text(role) == "user"@,
        role is Assistant ==> role_text(role) == "assistant"@,
        role is Tool ==> role_text(role) == "tool"@,
        role is System ==> role_text(role) == "system"@,
        t is Text ==> type_text(t) == "text"@,
        t is SessionInit ==> type_text(t) == "session_init"@,
        t is Compaction ==> type_text(t) == "compaction"@,
        t is ToolCall ==> type_text(t) == "tool_call"@,
        t is ToolResult ==> type_text(t) == "tool_result"@,
        t is CompletionSummary ==> type_text(t) == "completion_summary"@,
{
}

/// Names that are not known stand for the system's role and for plain text.
pub proof fn law_unknown_names(s: Seq<char>)
    ensures
        s != "user"@ && s != "assistant"@ && s != "tool"@ ==> role_of(s) is System,
        s != "session_init"@ && s != "compaction"@ && s != "tool_call"@ && s != "tool_result"@ && s
            != "completion_summary"@ ==> type_of(s) is Text,
{
}

/// A message is saved in its session and its project, under the names of its role and
/// its type, with its model form, its metadata and its turn, and with the next number.
pub proof fn law_saved_row(
    t: TablesView,
    m: AgentMessageView,
    session_id: Seq<char>,
    project_path: Seq<char>,
    saved: Seq<SavedImageView>,
    now: Seq<char>,
)
    requires
        0 <= t.last_id < i64::MAX,
    ensures
        ({
            let row = saved_row(t, m, session_id, project_path, saved, now);
            &&& row.id == t.last_id + 1
            &&& row.session_id == session_id && row.project_path == project_path
            &&& row.role == role_text(m.role) && row.type_ == type_text(m.message_type)
            &&& row.llm_message == json_text(externalized(m.llm_message, saved))
            &&& row.metadata == json_text(m.metadata)
            &&& row.turn_count == m.turn_count
            &&& row.created_at == now && row.rewound_at is None
        }),
{
}

/// What a row is read as: its texts as JSON, or an empty object where they cannot be
/// read, and its text where the model form has one; only a user's row is the user's.
pub proof fn law_row_read(m: StoredMessageView, files: Seq<ImageFileView>)
    ensures
        ({
            let a = stored_message(m, files);
            let empty = JsonV::Object(Map::empty());
            let llm = if json_parsed(m.llm_message) is Ok {
                json_parsed(m.llm_message)->Ok_0
            } else {
                empty
            };
            &&& a.llm_message == inlined(llm, m.session_id, files)
            &&& a.metadata == if json_parsed(m.metadata) is Ok {
                json_parsed(m.metadata)->Ok_0
            } else {
                empty
            }
            &&& a.llm_message.get("content"@) matches Some(JsonV::Str(s)) ==> a.content == s
            &&& !(a.llm_message.get("content"@) matches Some(JsonV::Str(_))) ==> a.content.len() == 0
            &&& a.role == role_of(m.role) && a.message_type == type_of(m.type_)
            &&& a.sender is HumanUser <==> m.role == "user"@
            &&& a.turn_count == m.turn_count
        }),
{
}

// ── What a model gets to see ──

/// Of rows, those from the last summary on are kept, and before it as many that are no
/// summaries as it says, or all where there are fewer. Nothing behind that is lost, and
/// without a summary nothing is.
pub proof fn law_rows_from_summary(rows: Seq<StoredMessageView>)
    ensures
        (forall|i: int| 0 <= i < rows.len() ==> (#[trigger] rows[i]).type_ != "compaction"@)
            ==> rows_from_summary(rows) == rows,
        forall|i: int|
            {
                &&& 0 <= i < rows.len()
                &&& (#[trigger] rows[i]).type_ == "compaction"@
                &&& forall|j: int| i < j < rows.len() ==> (#[trigger] rows[j]).type_ != "compaction"@
            } ==> exists|n: int|
                {
                    let kept = match json_parsed(rows[i].metadata) {
                        Ok(j) => match j.get("kept_before_count"@) {
                            Some(v) => if v.as_u64() is Some { v.as_u64()->0 as int } else { 0 },
                            None => 0,
                        },
                        Err(_) => 0,
                    };
                    &&& 0 <= n <= i
                    &&& rows_from_summary(rows) == #[trigger] rows.skip(n)
                    &&& spoken_between(rows, n, i) <= kept
                    &&& n > 0 ==> spoken_between(rows, n, i) == kept
                    &&& kept == 0 ==> n == i
                },
{
    if forall|i: int| 0 <= i < rows.len() ==> (#[trigger] rows[i]).type_ != "compaction"@ {
        assert forall|i: int| !last_summary(rows, i) by {}
    }
    assert forall|i: int|
        {
            &&& 0 <= i < rows.len()
            &&& (#[trigger] rows[i]).type_ == "compaction"@
            &&& forall|j: int| i < j < rows.len() ==> (#[trigger] rows[j]).type_ != "compaction"@
        } implies exists|n: int|
        {
            let kept = match json_parsed(rows[i].metadata) {
                Ok(j) => match j.get("kept_before_count"@) {
                    Some(v) => if v.as_u64() is Some { v.as_u64()->0 as int } else { 0 },
                    None => 0,
                },
                Err(_) => 0,
            };
            &&& 0 <= n <= i
            &&& rows_from_summary(rows) == #[trigger] rows.skip(n)
            &&& spoken_between(rows, n, i) <= kept
            &&& n > 0 ==> spoken_between(rows, n, i) == kept
            &&& kept == 0 ==> n == i
        } by {
        lemma_from_summary(rows, i);
        let kept = kept_count(json_parsed(rows[i].metadata));
        let n = back_over(rows, i, kept);
        assert(rows_from_summary(rows) == rows.skip(n));
    }
}

/// How many rows are no summaries, counted one by one.
pub proof fn law_spoken_counted(rows: Seq<StoredMessageView>, from: int, to: int)
    requires
        0 <= from < to <= rows.len(),
    ensures
        spoken_between(rows, to, to) == 0,
        spoken_between(rows, from, to) == spoken_between(rows, from + 1, to) + if rows[from].type_
            == "compaction"@ {
            0int
        } else {
            1
        },
{
}

proof fn lemma_from_summary(rows: Seq<StoredMessageView>, i: int)
    requires
        0 <= i < rows.len(),
        rows[i].type_ == "compaction"@,
        forall|j: int| i < j < rows.len() ==> (#[trigger] rows[j]).type_ != "compaction"@,
    ensures
        ({
            let kept = kept_count(json_parsed(rows[i].metadata));
            let n = back_over(rows, i, kept);
            &&& 0 <= n <= i
            &&& rows_from_summary(rows) == rows.skip(n)
            &&& spoken_between(rows, n, i) <= kept
            &&& n > 0 ==> spoken_between(rows, n, i) == kept
            &&& kept == 0 ==> n == i
            &&& kept >= 0
        }),
{
    assert(last_summary(rows, i));
    let k = choose|k: int| last_summary(rows, k);
    assert(last_summary(rows, k));
    if k < i {
        assert(!is_compaction(rows[i]));
    }
    if i < k {
        assert(rows[k].type_ != "compaction"@);
    }
    let kept = kept_count(json_parsed(rows[i].metadata));
    law_back_over(rows, i, kept);
}

/// The context of a session that was summed up loses nothing from the summary on: each
/// message that counts, a tool's or not, is there as it is read from its row.
pub proof fn law_loaded_context_keeps_all_since_summary(
    ms: Seq<StoredMessageView>,
    session_id: Seq<char>,
    files: Seq<ImageFileView>,
    i: int,
    k: int,
)
    requires
        numbered(ms),
        is_last_summary(ms, session_id, i),
        ms[i].role != "tool"@,
        i <= k < ms.len(),
        counts(ms, session_id, ms[k]),
    ensures
        loaded_context(ms, session_id, files).contains(stored_message(ms[k], files)),
{
    let rows = session_context(ms, session_id, 500);
    lemma_context_has_summary_last(ms, session_id, i);
    let kept = choose|kept: int| rows == #[trigger] context_rows(ms, session_id, 500, kept);
    law_context_keeps_all_since_summary(ms, session_id, 500, kept, i, i);
    law_context_keeps_all_since_summary(ms, session_id, 500, kept, i, k);
    law_context_after_summary(ms, session_id, 500, kept, i, ms[i]);
    let a = choose|a: int| 0 <= a < rows.len() && rows[a] == ms[i];
    let b = choose|b: int| 0 <= b < rows.len() && rows[b] == ms[k];
    assert(a <= b) by {
        if b < a {
            assert(rows[b].id < rows[a].id);
        }
    }
    assert forall|j: int| a < j < rows.len() implies (#[trigger] rows[j]).type_
        != "compaction"@ by {
        law_context_after_summary(ms, session_id, 500, kept, i, rows[j]);
        assert(rows.contains(rows[j]));
        let x = choose|x: int| 0 <= x < ms.len() && ms[x] == rows[j];
        assert(rows[a].id < rows[j].id);
        assert(x > i) by {
            if x < i {
                assert(ms[x].id < ms[i].id);
            }
        }
        assert(!(counts(ms, session_id, ms[x]) && ms[x].type_ == "compaction"@));
    }
    lemma_from_summary(rows, a);
    let n = back_over(rows, a, kept_count(json_parsed(rows[a].metadata)));
    let shown = loaded_context(ms, session_id, files);
    assert(shown[b - n] == stored_message(rows[b], files));
}

proof fn lemma_context_has_summary_last(
    ms: Seq<StoredMessageView>,
    session_id: Seq<char>,
    i: int,
)
    requires
        numbered(ms),
        is_last_summary(ms, session_id, i),
    ensures
        exists|kept: int|
            session_context(ms, session_id, 500) == #[trigger] context_rows(
                ms,
                session_id,
                500,
                kept,
            ),
{
    crate::agent_bridge::context_laws::law_context_asks_the_summary(ms, session_id, 500, i);
    match member_number(ms[i].metadata, "$.kept_before_count"@) {
        Ok(n) => {
            assert(session_context(ms, session_id, 500) == context_rows(
                ms,
                session_id,
                500,
                n as int,
            ));
        },
        Err(_) => {
            assert(session_context(ms, session_id, 500) == context_rows(ms, session_id, 500, 0));
        },
    }
}

/// The context of a session that was not summed up is what the store gives for it, five
/// hundred messages at most, each as it is read from its row.
pub proof fn law_loaded_context_without_summary(
    ms: Seq<StoredMessageView>,
    session_id: Seq<char>,
    files: Seq<ImageFileView>,
)
    requires
        numbered(ms),
        forall|i: int| !is_last_summary(ms, session_id, i),
    ensures
        ({
            let rows = context_rows(ms, session_id, 500, 0);
            &&& loaded_context(ms, session_id, files).len() == rows.len()
            &&& rows.len() <= 500
            &&& forall|j: int|
                0 <= j < rows.len() ==> #[trigger] loaded_context(ms, session_id, files)[j]
                    == stored_message(rows[j], files)
        }),
{
    let rows = context_rows(ms, session_id, 500, 0);
    let all = ms.filter(|x: StoredMessageView| counts(ms, session_id, x));
    assert forall|j: int| 0 <= j < rows.len() implies (#[trigger] rows[j]).type_
        != "compaction"@ by {
        law_context_without_summary(ms, session_id, 500, 0, rows[j]);
        assert(rows.contains(rows[j]));
        let (a, b) = choose|a: int, b: int|
            {
                &&& all.len() - 500 <= a
                &&& 0 <= a <= b < all.len()
                &&& !crate::agent_bridge::context_laws::of_tool(#[trigger] all[a])
                &&& #[trigger] all[b] == rows[j]
            };
        crate::text::lemma_filtered(ms, |x: StoredMessageView| counts(ms, session_id, x));
        assert(counts(ms, session_id, all[b]) && ms.contains(all[b]));
        if rows[j].type_ == "compaction"@ {
            let x = choose|x: int| 0 <= x < ms.len() && ms[x] == rows[j];
            lemma_some_last_summary(ms, session_id, x);
        }
    }
    law_context_without_summary(ms, session_id, 500, 0, ms[0]);
    law_rows_from_summary(rows);
    crate::agent_bridge::message_laws::law_context(ms, session_id, 500, 0);
    lemma_no_compaction(ms, session_id);
}

proof fn lemma_no_compaction(ms: Seq<StoredMessageView>, session_id: Seq<char>)
    requires
        numbered(ms),
        forall|i: int| !is_last_summary(ms, session_id, i),
    ensures
        crate::agent_bridge::messages::last_compaction(ms, session_id) is None,
{
    crate::agent_bridge::context_laws::lemma_last_summary(ms, session_id);
}

proof fn lemma_some_last_summary(ms: Seq<StoredMessageView>, session_id: Seq<char>, x: int)
    requires
        0 <= x < ms.len(),
        counts(ms, session_id, ms[x]),
        ms[x].type_ == "compaction"@,
    ensures
        exists|i: int| is_last_summary(ms, session_id, i),
    decreases ms.len() - x,
{
    if exists|k: int|
        x < k < ms.len() && counts(ms, session_id, #[trigger] ms[k]) && ms[k].type_
            == "compaction"@ {
        let k = choose|k: int|
            x < k < ms.len() && counts(ms, session_id, #[trigger] ms[k]) && ms[k].type_
                == "compaction"@;
        lemma_some_last_summary(ms, session_id, k);
    } else {
        assert(is_last_summary(ms, session_id, x));
    }
}

// ── What is shown ──

/// What is shown of a message: its text, where it is one; of blocks the texts of the
/// text blocks, put together, and the addresses of the images, both in order.
pub proof fn law_shown(
    parsed: Result<JsonV, Seq<char>>,
    session_id: Seq<char>,
    files: Seq<ImageFileView>,
)
    ensures
        ({
            let j = inlined(
                if parsed is Ok { parsed->Ok_0 } else { JsonV::Object(Map::empty()) },
                session_id,
                files,
            );
            let d = display_of(parsed, session_id, files);
            match j.get("content"@) {
                Some(JsonV::Str(s)) => d.0 == s && d.1.len() == 0,
                Some(JsonV::Array(bs)) => d.0 == block_texts(bs) && d.1 == block_images(bs),
                _ => d.0.len() == 0 && d.1.len() == 0,
            }
        }),
{
}

/// One block more: a text block adds its text, an image block its address, and any
/// other nothing.
pub proof fn law_shown_blocks(bs: Seq<JsonV>, b: JsonV)
    ensures
        block_texts(Seq::empty()).len() == 0,
        block_images(Seq::empty()).len() == 0,
        b.get("type"@) == Some(JsonV::Str("text"@)) ==> (b.get("text"@) matches Some(JsonV::Str(s))
            ==> block_texts(bs.push(b)) == block_texts(bs) + s),
        b.get("type"@) != Some(JsonV::Str("text"@)) || !(b.get("text"@) matches Some(
            JsonV::Str(_),
        )) ==> block_texts(bs.push(b)) == block_texts(bs),
        b.get("type"@) == Some(JsonV::Str("image_url"@)) ==> (block_url(b) matches Some(u)
            ==> block_images(bs.push(b)) == block_images(bs).push(u)),
        b.get("type"@) != Some(JsonV::Str("image_url"@)) || block_url(b) is None ==> block_images(
            bs.push(b),
        ) == block_images(bs),
{
    assert(bs.push(b).drop_last() =~= bs);
}

// ── Images ──

/// Which files stand for which kinds of image, and what those of other kinds are called.
pub proof fn law_image_kinds(media: Seq<char>, ext: Seq<char>)
    ensures
        media == "image/png"@ ==> extension_for(media) == "png"@,
        media == "image/jpeg"@ || media == "image/jpg"@ ==> extension_for(media) == "jpg"@,
        media == "image/gif"@ ==> extension_for(media) == "gif"@,
        media == "image/webp"@ ==> extension_for(media) == "webp"@,
        media == "image/svg+xml"@ ==> extension_for(media) == "svg"@,
        media == "image/bmp"@ ==> extension_for(media) == "bmp"@,
        media != "image/png"@ && media != "image/jpeg"@ && media != "image/jpg"@ && media
            != "image/gif"@ && media != "image/webp"@ && media != "image/svg+xml"@ && media
            != "image/bmp"@ ==> extension_for(media) == "img"@,
        ext != "png"@ && ext != "jpg"@ && ext != "jpeg"@ && ext != "gif"@ && ext != "webp"@ && ext
            != "svg"@ && ext != "bmp"@ ==> media_for(ext) == "application/octet-stream"@,
        ext == "png"@ ==> media_for(ext) == "image/png"@,
        ext == "jpg"@ || ext == "jpeg"@ ==> media_for(ext) == "image/jpeg"@,
        ext == "gif"@ ==> media_for(ext) == "image/gif"@,
        ext == "webp"@ ==> media_for(ext) == "image/webp"@,
        ext == "svg"@ ==> media_for(ext) == "image/svg+xml"@,
        ext == "bmp"@ ==> media_for(ext) == "image/bmp"@,
{
    reveal_strlit("image/png");
    reveal_strlit("image/jpeg");
    reveal_strlit("image/jpg");
    reveal_strlit("image/gif");
    reveal_strlit("image/webp");
    reveal_strlit("image/svg+xml");
    reveal_strlit("image/bmp");
    reveal_strlit("png");
    reveal_strlit("jpg");
    reveal_strlit("jpeg");
    reveal_strlit("gif");
    reveal_strlit("webp");
    reveal_strlit("svg");
    reveal_strlit("bmp");
    assert("image/png"@[6] == 'p' && "image/jpg"@[6] == 'j' && "image/gif"@[6] == 'g'
        && "image/bmp"@[6] == 'b');
    assert("image/jpeg"@[6] == 'j' && "image/webp"@[6] == 'w');
    assert("png"@[0] == 'p' && "jpg"@[0] == 'j' && "gif"@[0] == 'g' && "svg"@[0] == 's'
        && "bmp"@[0] == 'b');
    assert("jpeg"@[0] == 'j' && "webp"@[0] == 'w');
    assert("image/svg+xml"@.len() == 13);
}

/// The address of a block is that of its image.
pub proof fn law_block_address(b: JsonV, url: Seq<char>)
    ensures
        block_url(b) == Some(url) <==> (b.get("image_url"@) matches Some(i) && i.get("url"@)
            == Some(JsonV::Str(url))),
        block_url(b) is Some && (b.get("image_url"@) matches Some(JsonV::Object(_))) ==> block_url(
            with_url(b, url),
        ) == Some(url),
        forall|k: Seq<char>|
            k != "image_url"@ ==> #[trigger] with_url(b, url).get(k) == b.get(k),
{
}

/// Of a message each block whose image was put into a file refers to that file, and
/// every other block, and everything else in the message, stays.
pub proof fn law_images_put_out(j: JsonV, saved: Seq<SavedImageView>)
    ensures
        blocks_of(j) is None ==> externalized(j, saved) == j,
        blocks_of(j) matches Some(bs) ==> {
            let e = externalized(j, saved);
            &&& blocks_of(e) matches Some(es) && es.len() == bs.len() && forall|i: int|
                0 <= i < bs.len() ==> #[trigger] es[i] == if block_image(bs[i]) is Some
                    && file_of_block(saved, i) is Some {
                    with_url(bs[i], "supercoder-image:"@ + file_of_block(saved, i)->0)
                } else {
                    bs[i]
                }
            &&& forall|k: Seq<char>| k != "content"@ ==> #[trigger] e.get(k) == j.get(k)
        },
{
}

/// Of a saved message each block that refers to a file of the session gets the image
/// back, with the kind of the file; a file that is not there leaves the block as it is,
/// and so does everything else.
pub proof fn law_images_put_in(j: JsonV, session_id: Seq<char>, files: Seq<ImageFileView>)
    ensures
        blocks_of(j) is None ==> inlined(j, session_id, files) == j,
        blocks_of(j) matches Some(bs) ==> {
            let e = inlined(j, session_id, files);
            &&& blocks_of(e) matches Some(es) && es.len() == bs.len() && forall|i: int|
                0 <= i < bs.len() ==> #[trigger] es[i] == inlined_block(bs[i], session_id, files)
            &&& forall|k: Seq<char>| k != "content"@ ==> #[trigger] e.get(k) == j.get(k)
        },
{
}

/// See [`law_images_put_in`]: a block alone.
pub proof fn law_image_put_in(
    b: JsonV,
    file: Seq<char>,
    session_id: Seq<char>,
    files: Seq<ImageFileView>,
)
    ensures
        block_url(b) == Some("supercoder-image:"@ + file) ==> match bytes_of(
            files,
            session_id,
            file,
        ) {
            Some(bytes) => inlined_block(b, session_id, files) == with_url(
                b,
                data_url_of(file, bytes),
            ),
            None => inlined_block(b, session_id, files) == b,
        },
        (forall|f: Seq<char>| block_url(b) != Some(#[trigger] ("supercoder-image:"@ + f)))
            ==> inlined_block(b, session_id, files) == b,
{
    let p = "supercoder-image:"@;
    if block_url(b) == Some(p + file) {
        let url = p + file;
        assert(url.take(p.len() as int) =~= p);
        assert(url.skip(p.len() as int) =~= file);
    }
    if forall|f: Seq<char>| block_url(b) != Some(#[trigger] (p + f)) {
        if let Some(url) = block_url(b) {
            if has_prefix(url, p) {
                assert(url =~= p + url.skip(p.len() as int));
            }
        }
    }
}

/// The bytes of a file are those of that session and of that name.
pub proof fn law_image_bytes(
    files: Seq<ImageFileView>,
    session_id: Seq<char>,
    file: Seq<char>,
)
    ensures
        match bytes_of(files, session_id, file) {
            Some(bytes) => exists|k: int|
                0 <= k < files.len() && (#[trigger] files[k]).session_id == session_id
                    && files[k].file == file && files[k].bytes == bytes,
            None => forall|k: int|
                0 <= k < files.len() ==> !((#[trigger] files[k]).session_id == session_id
                    && files[k].file == file),
        },
{
    let n = files.len() as int;
    let hit = |k: int| files[k].session_id == session_id && files[k].file == file;
    if exists|i: int| is_first(n, hit, i) {
        let k = choose|i: int| is_first(n, hit, i);
        lemma_first(n, hit, k);
        assert(hit(k));
        assert(files[k].session_id == session_id);
    } else {
        assert forall|k: int| 0 <= k < n implies !((#[trigger] files[k]).session_id == session_id
            && files[k].file == file) by {
            if hit(k) {
                lemma_has_first(n, hit, k);
            }
        }
        assert(first_where(n, hit) is None);
    }
}

/// The images that wait to be put into files: one for each block that has an image in
/// it, in order, with the place of the block, what the file is to be called behind the
/// dot, and the bytes.
pub proof fn law_pending_images(bs: Seq<JsonV>, b: JsonV)
    ensures
        pending_in(Seq::empty()).len() == 0,
        match block_image(b) {
            Some((media, bytes)) => pending_in(bs.push(b)) == pending_in(bs).push(
                PendingImageView {
                    block: bs.len() as int,
                    extension: extension_for(media),
                    bytes,
                },
            ),
            None => pending_in(bs.push(b)) == pending_in(bs),
        },
{
    assert(bs.push(b).drop_last() =~= bs);
}

/// The files that a message refers to, in order.
pub proof fn law_referred_files(bs: Seq<JsonV>, b: JsonV, file: Seq<char>)
    ensures
        refs_in(Seq::empty()).len() == 0,
        block_url(b) == Some("supercoder-image:"@ + file) ==> refs_in(bs.push(b)) == refs_in(
            bs,
        ).push(file),
        block_ref(b) is None ==> refs_in(bs.push(b)) == refs_in(bs),
{
    assert(bs.push(b).drop_last() =~= bs);
    let p = "supercoder-image:"@;
    if block_url(b) == Some(p + file) {
        let url = p + file;
        assert(url.take(p.len() as int) =~= p);
        assert(url.skip(p.len() as int) =~= file);
    }
}

/// An address that holds its data: behind `data:` and in front of the first comma stands
/// the kind, with or without the word for the encoding, and behind the comma the data.
/// An address of another kind, without a comma, or that names no kind, holds none.
pub proof fn law_data_address(url: Seq<char>, media: Seq<char>, data: Seq<char>)
    ensures
        !media.contains(',') && media.len() > 0 ==> data_uri(
            "data:"@ + (media + ";base64"@) + ","@ + data,
        ) == Some((media, data)),
        !media.contains(',') && media.len() > 0 && !has_suffix(media, ";base64"@) ==> data_uri(
            "data:"@ + media + ","@ + data,
        ) == Some((media, data)),
        !has_prefix(url, "data:"@) ==> data_uri(url) is None,
        !url.contains(',') ==> data_uri(url) is None,
{
    reveal_strlit("data:");
    reveal_strlit(";base64");
    reveal_strlit(",");
    assert(","@[0] == ',' && ","@.len() == 1);
    if !media.contains(',') && media.len() > 0 {
        let meta = media + ";base64"@;
        assert forall|i: int| 0 <= i < meta.len() implies meta[i] != ',' by {
            if i < media.len() {
                assert(meta[i] == media[i]);
                assert(media.contains(media[i]));
            } else {
                assert(meta[i] == ";base64"@[i - media.len()]);
            }
        }
        lemma_data_split(meta, data);
        assert(meta.skip(meta.len() - ";base64"@.len()) =~= ";base64"@);
        assert(meta.take(meta.len() - ";base64"@.len()) =~= media);
        if !has_suffix(media, ";base64"@) {
            assert forall|i: int| 0 <= i < media.len() implies media[i] != ',' by {
                assert(media.contains(media[i]));
            }
            lemma_data_split(media, data);
        }
    }
    if !url.contains(',') && has_prefix(url, "data:"@) {
        let rest = url.skip("data:"@.len() as int);
        if rest.contains(',') {
            let i = choose|i: int| 0 <= i < rest.len() && rest[i] == ',';
            assert(url[i + 5] == ',');
        }
    }
}

proof fn lemma_data_split(meta: Seq<char>, data: Seq<char>)
    requires
        forall|i: int| 0 <= i < meta.len() ==> meta[i] != ',',
    ensures
        has_prefix("data:"@ + meta + ","@ + data, "data:"@),
        split_comma(("data:"@ + meta + ","@ + data).skip("data:"@.len() as int)) == Some(
            (meta, data),
        ),
{
    reveal_strlit("data:");
    reveal_strlit(",");
    let url = "data:"@ + meta + ","@ + data;
    let rest = url.skip("data:"@.len() as int);
    assert(url.take("data:"@.len() as int) =~= "data:"@);
    assert(rest =~= meta + ","@ + data);
    let n = meta.len() as int;
    assert(rest[n] == ',');
    assert(rest.contains(','));
    assert forall|j: int| 0 <= j < n implies rest[j] != ',' by {
        assert(rest[j] == meta[j]);
    }
    assert(first_at(rest, ',', n));
    let i = choose|i: int| first_at(rest, ',', i);
    assert(first_at(rest, ',', i));
    if i < n {
        assert(rest[i] != ',');
    }
    if n < i {
        assert(rest[n] != ',');
    }
    assert(rest.take(n) =~= meta);
    assert(rest.skip(n + 1) =~= data);
}

/// The kind of a file goes by what stands behind its last dot; without a name in front
/// of the dot, or without a dot, it is not known.
pub proof fn law_file_kind(name: Seq<char>, ext: Seq<char>, bytes: Seq<u8>)
    requires
        !ext.contains('.'),
    ensures
        name.len() > 0 && name.last() != '/' ==> media_of_file(name + "."@ + ext) == media_for(ext),
        name.len() == 0 || name.last() == '/' ==> media_of_file(name + "."@ + ext) == media_for(
            "img"@,
        ),
        media_of_file(ext) == media_for("img"@),
        data_url_of(name, bytes) == "data:"@ + media_of_file(name) + ";base64,"@
            + crate::agent_bridge::images::b64_encoded(bytes),
{
    reveal_strlit(".");
    let file = name + "."@ + ext;
    let n = name.len() as int;
    assert(file[n] == '.');
    assert forall|j: int| n < j < file.len() implies file[j] != '.' by {
        assert(file[j] == ext[j - n - 1]);
        assert(ext.contains(ext[j - n - 1]));
    }
    assert(last_dot(file, n));
    let i = choose|i: int| last_dot(file, i);
    assert(last_dot(file, i));
    if i < n {
        assert(file[n] != '.');
    }
    if n < i {
        assert(file[i] != '.');
    }
    assert(file.skip(n + 1) =~= ext);
    if n > 0 {
        assert(file[n - 1] == name.last());
    }
    assert forall|i: int| !last_dot(ext, i) by {
        if last_dot(ext, i) {
            assert(ext.contains(ext[i]));
        }
    }
}

/// The file of a block is the first that was made for it.
pub proof fn law_file_of_block(saved: Seq<SavedImageView>, i: int)
    ensures
        match file_of_block(saved, i) {
            Some(file) => exists|k: int|
                0 <= k < saved.len() && (#[trigger] saved[k]).block == i && saved[k].file == file,
            None => forall|k: int| 0 <= k < saved.len() ==> (#[trigger] saved[k]).block != i,
        },
{
    let n = saved.len() as int;
    let hit = |k: int| saved[k].block == i;
    if exists|k: int| is_first(n, hit, k) {
        let k = choose|k: int| is_first(n, hit, k);
        lemma_first(n, hit, k);
        assert(hit(k));
        assert(saved[k].block == i);
    } else {
        assert forall|k: int| 0 <= k < n implies (#[trigger] saved[k]).block != i by {
            if hit(k) {
                lemma_has_first(n, hit, k);
            }
        }
        assert(first_where(n, hit) is None);
    }
}

} // verus!
