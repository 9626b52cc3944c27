//! Text recognition: how the image is prepared for the recognizer, and how
//! the recognized words are assembled into text blocks.
use vstd::prelude::*;
use crate::keys::{spec_is_blank, is_blank};
use crate::text::{str_eq, trim, trim_str};

verus! {

/// Check if OCR models need to be downloaded: the system recognizer brings
/// its own, so never.
pub fn models_need_download() -> (b: bool)
    ensures
        !b,
{
    false
}

/// The smaller side of an image.
pub open spec fn min_dimension(width: u32, height: u32) -> u32 {
    if width < height {
        width
    } else {
        height
    }
}

/// Small images are upscaled before recognition (small text reads better
/// bigger): 4x under 100 pixels on the smaller side, 2x under 200.
pub open spec fn spec_upscale_factor(width: u32, height: u32) -> u32 {
    if min_dimension(width, height) < 100 {
        4
    } else if min_dimension(width, height) < 200 {
        2
    } else {
        1
    }
}

/// The DPI the recognizer is told: 300 for small images, else 150.
pub open spec fn spec_ocr_dpi(width: u32, height: u32) -> i32 {
    if min_dimension(width, height) < 200 {
        300
    } else {
        150
    }
}

/// How much to upscale an image before recognition.
pub fn ocr_upscale_factor(width: u32, height: u32) -> (f: u32)
    ensures
        f == spec_upscale_factor(width, height),
{
    let m = if width < height {
        width
    } else {
        height
    };
    if m < 100 {
        4
    } else if m < 200 {
        2
    } else {
        1
    }
}

/// The DPI to tell the recognizer.
pub fn ocr_dpi(width: u32, height: u32) -> (d: i32)
    ensures
        d == spec_ocr_dpi(width, height),
{
    let m = if width < height {
        width
    } else {
        height
    };
    if m < 200 {
        300
    } else {
        150
    }
}

/// One word reported by the recognizer, in the recognized image's pixels.
#[derive(Debug)]
pub struct OcrWord {
    pub left: i32,
    pub top: i32,
    pub width: i32,
    pub height: i32,
    pub block_num: i32,
    pub line_num: i32,
    pub word_num: i32,
    pub text: String,
    /// Whether the recognizer's confidence is above zero.
    pub confident: bool,
}

impl Clone for OcrWord {
    fn clone(&self) -> (r: Self)
        ensures
            r == *self,
    {
        OcrWord {
            left: self.left,
            top: self.top,
            width: self.width,
            height: self.height,
            block_num: self.block_num,
            line_num: self.line_num,
            word_num: self.word_num,
            text: self.text.clone(),
            confident: self.confident,
        }
    }
}

/// A block of recognized text and its bounding box (right and bottom
/// exclusive), in the recognized image's pixels.
#[derive(Debug)]
pub struct OcrBlock {
    pub text: String,
    pub left: i32,
    pub top: i32,
    pub right: i32,
    pub bottom: i32,
    pub block_num: i32,
}

/// A word counts when it has some non-blank text and positive confidence.
pub open spec fn counts(w: OcrWord) -> bool {
    !spec_is_blank(w.text@) && w.confident
}

/// The counting words of block `b`, in the recognizer's order.
pub open spec fn block_words(ws: Seq<OcrWord>, b: i32) -> Seq<OcrWord>
    decreases ws.len(),
{
    if ws.len() == 0 {
        ws
    } else {
        let rest = block_words(ws.drop_last(), b);
        if counts(ws.last()) && ws.last().block_num == b {
            rest.push(ws.last())
        } else {
            rest
        }
    }
}

/// Reading order: by line, then by word within the line.
pub open spec fn reads_before_or_with(a: OcrWord, b: OcrWord) -> bool {
    a.line_num < b.line_num || (a.line_num == b.line_num && a.word_num <= b.word_num)
}

/// Where `w` goes in the ordered `s`: after every word that reads before it
/// or with it.
pub open spec fn insert_pos(s: Seq<OcrWord>, w: OcrWord) -> int
    decreases s.len(),
{
    if s.len() == 0 {
        0
    } else if reads_before_or_with(s.last(), w) {
        s.len() as int
    } else {
        insert_pos(s.drop_last(), w)
    }
}

/// The words in reading order, keeping the recognizer's order among words
/// with the same line and word number (a stable sort).
pub open spec fn reading_order(ws: Seq<OcrWord>) -> Seq<OcrWord>
    decreases ws.len(),
{
    if ws.len() == 0 {
        ws
    } else {
        let sorted = reading_order(ws.drop_last());
        sorted.insert(insert_pos(sorted, ws.last()), ws.last())
    }
}

/// The separator written before a word: a space between words, except
/// before the first one (line number -1 stands for "no line yet").
pub open spec fn separator(current_line: int, w: OcrWord) -> Seq<char> {
    if w.line_num != current_line {
        if current_line != -1 {
            " "@
        } else {
            Seq::empty()
        }
    } else {
        " "@
    }
}

/// The words from `i` on, joined, with `current_line` the line of the word
/// before.
pub open spec fn joined_from(ws: Seq<OcrWord>, i: int, current_line: int) -> Seq<char>
    decreases ws.len() - i,
{
    if i >= ws.len() || i < 0 {
        Seq::empty()
    } else {
        separator(current_line, ws[i]) + ws[i].text@ + joined_from(
            ws,
            i + 1,
            ws[i].line_num as int,
        )
    }
}

/// Smallest left edge of the words.
pub open spec fn min_left(ws: Seq<OcrWord>) -> int
    decreases ws.len(),
{
    if ws.len() <= 1 {
        ws[0].left as int
    } else if (ws.last().left as int) < min_left(ws.drop_last()) {
        ws.last().left as int
    } else {
        min_left(ws.drop_last())
    }
}

/// Smallest top edge of the words.
pub open spec fn min_top(ws: Seq<OcrWord>) -> int
    decreases ws.len(),
{
    if ws.len() <= 1 {
        ws[0].top as int
    } else if (ws.last().top as int) < min_top(ws.drop_last()) {
        ws.last().top as int
    } else {
        min_top(ws.drop_last())
    }
}

/// Largest right edge of the words.
pub open spec fn max_right(ws: Seq<OcrWord>) -> int
    decreases ws.len(),
{
    if ws.len() <= 1 {
        ws[0].left + ws[0].width
    } else if ws.last().left + ws.last().width > max_right(ws.drop_last()) {
        ws.last().left + ws.last().width
    } else {
        max_right(ws.drop_last())
    }
}

/// Largest bottom edge of the words.
pub open spec fn max_bottom(ws: Seq<OcrWord>) -> int
    decreases ws.len(),
{
    if ws.len() <= 1 {
        ws[0].top + ws[0].height
    } else if ws.last().top + ws.last().height > max_bottom(ws.drop_last()) {
        ws.last().top + ws.last().height
    } else {
        max_bottom(ws.drop_last())
    }
}

/// A word's right and bottom edges fit in `i32`.
pub open spec fn edges_fit(w: OcrWord) -> bool {
    i32::MIN <= w.left + w.width <= i32::MAX && i32::MIN <= w.top + w.height <= i32::MAX
}

/// Insert `w` into the ordered `res` after every word that reads before it
/// or with it.
fn insert_in_order(res: &mut Vec<OcrWord>, w: OcrWord)
    ensures
        final(res)@ == old(res)@.insert(insert_pos(old(res)@, w), w),
{
    let ghost s = res@;
    let mut j = res.len();
    proof {
        assert(s.take(j as int) =~= s);
    }
    while j > 0 && !(res[j - 1].line_num < w.line_num || (res[j - 1].line_num == w.line_num
        && res[j - 1].word_num <= w.word_num))
        invariant
            res@ == s,
            j <= s.len(),
            insert_pos(s.take(j as int), w) == insert_pos(s, w),
        decreases j,
    {
        proof {
            assert(s.take(j as int).drop_last() =~= s.take(j - 1));
        }
        j -= 1;
    }
    proof {
        if j > 0 {
            assert(s.take(j as int).last() == s[j - 1]);
        } else {
            assert(s.take(0) =~= Seq::<OcrWord>::empty());
        }
    }
    res.insert(j, w);
}

/// Sort words into reading order (stable).
pub fn sort_reading_order(words: &Vec<OcrWord>) -> (r: Vec<OcrWord>)
    ensures
        r@ == reading_order(words@),
{
    let mut res: Vec<OcrWord> = Vec::new();
    let mut i: usize = 0;
    while i < words.len()
        invariant
            i <= words@.len(),
            res@ == reading_order(words@.take(i as int)),
        decreases words@.len() - i,
    {
        proof {
            assert(words@.take(i + 1).drop_last() =~= words@.take(i as int));
        }
        insert_in_order(&mut res, words[i].clone());
        i += 1;
    }
    proof {
        assert(words@.take(words@.len() as int) =~= words@);
    }
    res
}

/// The counting words of block `block_num`, in the recognizer's order.
fn select_block(words: &Vec<OcrWord>, block_num: i32) -> (r: Vec<OcrWord>)
    ensures
        r@ == block_words(words@, block_num),
{
    let mut res: Vec<OcrWord> = Vec::new();
    let mut i: usize = 0;
    while i < words.len()
        invariant
            i <= words@.len(),
            res@ == block_words(words@.take(i as int), block_num),
        decreases words@.len() - i,
    {
        proof {
            assert(words@.take(i + 1).drop_last() =~= words@.take(i as int));
        }
        if !is_blank(words[i].text.as_str()) && words[i].confident && words[i].block_num
            == block_num {
            res.push(words[i].clone());
        }
        i += 1;
    }
    proof {
        assert(words@.take(words@.len() as int) =~= words@);
    }
    res
}

proof fn lemma_block_words_from(ws: Seq<OcrWord>, b: i32, k: int)
    requires
        0 <= k < block_words(ws, b).len(),
    ensures
        exists|i: int| 0 <= i < ws.len() && ws[i] == #[trigger] block_words(ws, b)[k],
        counts(block_words(ws, b)[k]),
        block_words(ws, b)[k].block_num == b,
    decreases ws.len(),
{
    let rest = block_words(ws.drop_last(), b);
    if k < rest.len() {
        lemma_block_words_from(ws.drop_last(), b, k);
        let i = choose|i: int| 0 <= i < ws.drop_last().len() && ws.drop_last()[i] == rest[k];
        assert(ws[i] == block_words(ws, b)[k]);
    } else {
        assert(ws[ws.len() - 1] == block_words(ws, b)[k]);
    }
}

proof fn lemma_reading_order_members(ws: Seq<OcrWord>, k: int)
    requires
        0 <= k < reading_order(ws).len(),
    ensures
        reading_order(ws).len() == ws.len(),
        exists|i: int| 0 <= i < ws.len() && ws[i] == #[trigger] reading_order(ws)[k],
    decreases ws.len(),
{
    lemma_reading_order_len(ws);
    let sorted = reading_order(ws.drop_last());
    lemma_reading_order_len(ws.drop_last());
    let p = insert_pos(sorted, ws.last());
    lemma_insert_pos_range(sorted, ws.last());
    if k == p {
        assert(ws[ws.len() - 1] == reading_order(ws)[k]);
    } else {
        let k2 = if k < p {
            k
        } else {
            k - 1
        };
        assert(reading_order(ws)[k] == sorted[k2]);
        lemma_reading_order_members(ws.drop_last(), k2);
        let i = choose|i: int| 0 <= i < ws.drop_last().len() && ws.drop_last()[i] == sorted[k2];
        assert(ws[i] == reading_order(ws)[k]);
    }
}

proof fn lemma_insert_pos_range(s: Seq<OcrWord>, w: OcrWord)
    ensures
        0 <= insert_pos(s, w) <= s.len(),
    decreases s.len(),
{
    if s.len() > 0 && !reads_before_or_with(s.last(), w) {
        lemma_insert_pos_range(s.drop_last(), w);
    }
}

proof fn lemma_reading_order_len(ws: Seq<OcrWord>)
    ensures
        reading_order(ws).len() == ws.len(),
    decreases ws.len(),
{
    if ws.len() > 0 {
        lemma_reading_order_len(ws.drop_last());
        lemma_insert_pos_range(reading_order(ws.drop_last()), ws.last());
    }
}

/// Join the words' texts as the recognizer's lines read.
fn join_words(ws: &Vec<OcrWord>) -> (s: String)
    ensures
        s@ == joined_from(ws@, 0, -1),
{
    let mut out = String::new();
    let mut current_line: i64 = -1;
    let mut i: usize = 0;
    proof {
        reveal_strlit(" ");
    }
    while i < ws.len()
        invariant
            i <= ws@.len(),
            out@ + joined_from(ws@, i as int, current_line as int) == joined_from(ws@, 0, -1),
            i == 0 ==> current_line == -1,
            i > 0 ==> current_line == ws@[i - 1].line_num,
        decreases ws@.len() - i,
    {
        let w = &ws[i];
        let ghost before = out@;
        if w.line_num as i64 != current_line {
            if current_line != -1 {
                out.append(" ");
            }
            current_line = w.line_num as i64;
        } else {
            out.append(" ");
        }
        out.append(w.text.as_str());
        proof {
            let cl = if i == 0 {
                -1
            } else {
                ws@[i - 1].line_num as int
            };
            assert(out@ =~= before + separator(cl, ws@[i as int]) + ws@[i as int].text@);
            assert(joined_from(ws@, i as int, cl) == separator(cl, ws@[i as int]) + ws@[i as int].text@
                + joined_from(ws@, i + 1, ws@[i as int].line_num as int));
            assert(out@ + joined_from(ws@, i + 1, current_line as int) =~= before + joined_from(
                ws@,
                i as int,
                cl,
            ));
        }
        i += 1;
    }
    proof {
        assert(out@ + Seq::<char>::empty() =~= out@);
    }
    out
}

/// The bounding box of the words: smallest left and top, largest right and
/// bottom.
fn bounding_box(ws: &Vec<OcrWord>) -> (r: (i32, i32, i32, i32))
    requires
        ws@.len() > 0,
        forall|k: int| 0 <= k < ws@.len() ==> edges_fit(#[trigger] ws@[k]),
    ensures
        r.0 == min_left(ws@),
        r.1 == min_top(ws@),
        r.2 == max_right(ws@),
        r.3 == max_bottom(ws@),
{
    let mut l = ws[0].left;
    let mut t = ws[0].top;
    let mut r = ws[0].left + ws[0].width;
    let mut b = ws[0].top + ws[0].height;
    let mut i: usize = 1;
    while i < ws.len()
        invariant
            1 <= i <= ws@.len(),
            forall|k: int| 0 <= k < ws@.len() ==> edges_fit(#[trigger] ws@[k]),
            l == min_left(ws@.take(i as int)),
            t == min_top(ws@.take(i as int)),
            r == max_right(ws@.take(i as int)),
            b == max_bottom(ws@.take(i as int)),
        decreases ws@.len() - i,
    {
        proof {
            assert(ws@.take(i + 1).drop_last() =~= ws@.take(i as int));
            assert(ws@.take(i + 1).last() == ws@[i as int]);
        }
        let w = &ws[i];
        if w.left < l {
            l = w.left;
        }
        if w.top < t {
            t = w.top;
        }
        assert(edges_fit(ws@[i as int]));
        if w.left + w.width > r {
            r = w.left + w.width;
        }
        if w.top + w.height > b {
            b = w.top + w.height;
        }
        i += 1;
    }
    proof {
        assert(ws@.take(ws@.len() as int) =~= ws@);
    }
    (l, t, r, b)
}

/// The text block the recognizer reported as block `block_num`: its
/// counting words in reading order, joined, trimmed, and their bounding box.
/// `None` when the block has no counting word or its text is blank.
pub fn assemble_block(words: &Vec<OcrWord>, block_num: i32) -> (r: Option<OcrBlock>)
    requires
        forall|k: int|
            0 <= k < words@.len() && counts(#[trigger] words@[k]) && words@[k].block_num
                == block_num ==> edges_fit(words@[k]),
    ensures
        ({
            let ws = reading_order(block_words(words@, block_num));
            let text = trim(joined_from(ws, 0, -1));
            &&& (ws.len() == 0 || text.len() == 0) ==> r is None
            &&& (ws.len() > 0 && text.len() > 0) ==> (r matches Some(blk) && blk.text@ == text
                && blk.left == min_left(ws) && blk.top == min_top(ws) && blk.right == max_right(ws)
                && blk.bottom == max_bottom(ws) && blk.block_num == block_num)
        }),
{
    let selected = select_block(words, block_num);
    if selected.len() == 0 {
        proof {
            lemma_reading_order_len(selected@);
        }
        return None;
    }
    let sorted = sort_reading_order(&selected);
    proof {
        lemma_reading_order_len(selected@);
        assert forall|k: int| 0 <= k < sorted@.len() implies edges_fit(#[trigger] sorted@[k]) by {
            lemma_reading_order_members(selected@, k);
            let i = choose|i: int| 0 <= i < selected@.len() && selected@[i] == sorted@[k];
            lemma_block_words_from(words@, block_num, i);
            let j = choose|j: int| 0 <= j < words@.len() && words@[j] == block_words(words@, block_num)[i];
            assert(counts(words@[j]) && words@[j].block_num == block_num);
        }
    }
    let joined = join_words(&sorted);
    let text = trim_str(joined.as_str());
    if text.as_str().unicode_len() == 0 {
        return None;
    }
    let (left, top, right, bottom) = bounding_box(&sorted);
    Some(OcrBlock { text, left, top, right, bottom, block_num })
}

/// The distinct block numbers of the counting words. (The recognizer's
/// blocks come in no particular order.)
pub fn block_numbers(words: &Vec<OcrWord>) -> (r: Vec<i32>)
    ensures
        r@.no_duplicates(),
        forall|b: i32|
            r@.contains(b) <==> exists|k: int|
                0 <= k < words@.len() && counts(#[trigger] words@[k]) && words@[k].block_num == b,
{
    let mut res: Vec<i32> = Vec::new();
    let mut i: usize = 0;
    while i < words.len()
        invariant
            i <= words@.len(),
            res@.no_duplicates(),
            forall|b: i32|
                res@.contains(b) <==> exists|k: int|
                    0 <= k < i && counts(#[trigger] words@[k]) && words@[k].block_num == b,
        decreases words@.len() - i,
    {
        let ghost prev = res@;
        if !is_blank(words[i].text.as_str()) && words[i].confident {
            let b = words[i].block_num;
            let mut seen = false;
            let mut j: usize = 0;
            while j < res.len()
                invariant
                    res@ == prev,
                    j <= res@.len(),
                    seen <==> exists|t: int| 0 <= t < j && res@[t] == b,
                decreases res@.len() - j,
            {
                if res[j] == b {
                    seen = true;
                }
                j += 1;
            }
            if !seen {
                res.push(b);
            }
            proof {
                assert(counts(words@[i as int]));
                assert forall|b2: i32|
                    res@.contains(b2) <==> exists|k: int|
                        0 <= k < i + 1 && counts(#[trigger] words@[k]) && words@[k].block_num
                            == b2 by {
                    if res@.contains(b2) {
                        if b2 != b {
                            let t = choose|t: int| 0 <= t < res@.len() && res@[t] == b2;
                            assert(prev.contains(b2));
                        }
                    }
                    if b2 == b {
                        if seen {
                            let t = choose|t: int| 0 <= t < prev.len() && prev[t] == b;
                            assert(res@[t] == b2);
                        } else {
                            assert(res@[prev.len() as int] == b2);
                        }
                    } else if exists|k: int|
                        0 <= k < i + 1 && counts(#[trigger] words@[k]) && words@[k].block_num == b2 {
                        assert(prev.contains(b2));
                        let t = choose|t: int| 0 <= t < prev.len() && prev[t] == b2;
                        assert(res@[t] == b2);
                    }
                }
            }
        } else {
            proof {
                assert forall|b2: i32|
                    res@.contains(b2) <==> exists|k: int|
                        0 <= k < i + 1 && counts(#[trigger] words@[k]) && words@[k].block_num
                            == b2 by {
                    if exists|k: int|
                        0 <= k < i + 1 && counts(#[trigger] words@[k]) && words@[k].block_num == b2 {
                        let k = choose|k: int|
                            0 <= k < i + 1 && counts(#[trigger] words@[k]) && words@[k].block_num
                                == b2;
                        assert(k < i);
                    }
                }
            }
        }
        i += 1;
    }
    res
}

/// The text reported when the recognizer finds none.
pub open spec fn no_text_message() -> Seq<char> {
    "No text detected"@
}

/// The text of a recognition result: the recognizer's output trimmed, or
/// the "no text" message when nothing is left.
pub open spec fn spec_result_text(raw: Seq<char>) -> Seq<char> {
    if trim(raw).len() == 0 {
        no_text_message()
    } else {
        trim(raw)
    }
}

/// The text of a recognition result.
pub fn ocr_result_text(raw: &str) -> (t: String)
    ensures
        t@ == spec_result_text(raw@),
{
    let t = trim_str(raw);
    if t.as_str().unicode_len() == 0 {
        String::from_str("No text detected")
    } else {
        t
    }
}

/// Whether a result without any text block gets one block covering the
/// whole selection: when it found text after all.
pub fn needs_fallback_overlay(no_blocks: bool, text: &str) -> (b: bool)
    ensures
        b == (no_blocks && text@.len() > 0 && text@ != no_text_message()),
{
    no_blocks && text.unicode_len() > 0 && !str_eq(text, "No text detected")
}

/// The text kept for copying from a finished recognition: none when it
/// found nothing.
pub fn stored_ocr_text(text: &str) -> (r: Option<String>)
    ensures
        match r {
            Some(t) => t@ == text@ && text@.len() > 0 && text@ != no_text_message(),
            None => text@.len() == 0 || text@ == no_text_message(),
        },
{
    if text.unicode_len() > 0 && !str_eq(text, "No text detected") {
        Some(String::from_str(text))
    } else {
        None
    }
}

/// Every word reads before or with every later word.
pub open spec fn in_reading_order(s: Seq<OcrWord>) -> bool {
    forall|i: int, j: int| 0 <= i < j < s.len() ==> reads_before_or_with(#[trigger] s[i], #[trigger] s[j])
}

proof fn lemma_insert_pos_splits(s: Seq<OcrWord>, w: OcrWord)
    requires
        in_reading_order(s),
    ensures
        forall|k: int| 0 <= k < insert_pos(s, w) ==> reads_before_or_with(#[trigger] s[k], w),
        forall|k: int| insert_pos(s, w) <= k < s.len() ==> reads_before_or_with(w, #[trigger] s[k]),
    decreases s.len(),
{
    lemma_insert_pos_range(s, w);
    if s.len() > 0 {
        if reads_before_or_with(s.last(), w) {
            assert forall|k: int| 0 <= k < insert_pos(s, w) implies reads_before_or_with(
                #[trigger] s[k],
                w,
            ) by {
                if k < s.len() - 1 {
                    assert(reads_before_or_with(s[k], s[s.len() - 1]));
                }
            }
        } else {
            let t = s.drop_last();
            assert(in_reading_order(t)) by {
                assert forall|i: int, j: int| 0 <= i < j < t.len() implies reads_before_or_with(
                    #[trigger] t[i],
                    #[trigger] t[j],
                ) by {
                    assert(reads_before_or_with(s[i], s[j]));
                }
            }
            lemma_insert_pos_splits(t, w);
            lemma_insert_pos_range(t, w);
            assert(insert_pos(s, w) == insert_pos(t, w));
            assert forall|k: int| insert_pos(s, w) <= k < s.len() implies reads_before_or_with(
                w,
                #[trigger] s[k],
            ) by {
                if k < s.len() - 1 {
                    assert(s[k] == t[k]);
                }
            }
            assert forall|k: int| 0 <= k < insert_pos(s, w) implies reads_before_or_with(
                #[trigger] s[k],
                w,
            ) by {
                assert(s[k] == t[k]);
            }
        }
    }
}

proof fn lemma_reading_order_multiset(ws: Seq<OcrWord>)
    ensures
        reading_order(ws).to_multiset() == ws.to_multiset(),
    decreases ws.len(),
{
    if ws.len() == 0 {
    } else {
        lemma_reading_order_multiset(ws.drop_last());
        let sorted = reading_order(ws.drop_last());
        lemma_insert_pos_range(sorted, ws.last());
        vstd::seq_lib::to_multiset_insert(sorted, insert_pos(sorted, ws.last()), ws.last());
        vstd::seq_lib::to_multiset_build(ws.drop_last(), ws.last());
        assert(ws.drop_last().push(ws.last()) =~= ws);
    }
}

/// Law: the words come out in reading order, all of them and only them
/// (the same words, each as often).
pub proof fn law_reading_order(ws: Seq<OcrWord>)
    ensures
        reading_order(ws).to_multiset() == ws.to_multiset(),
        reading_order(ws).len() == ws.len(),
        in_reading_order(reading_order(ws)),
        forall|k: int|
            0 <= k < ws.len() ==> exists|i: int|
                0 <= i < ws.len() && ws[i] == #[trigger] reading_order(ws)[k],
    decreases ws.len(),
{
    lemma_reading_order_len(ws);
    lemma_reading_order_multiset(ws);
    assert forall|k: int| 0 <= k < ws.len() implies exists|i: int|
        0 <= i < ws.len() && ws[i] == #[trigger] reading_order(ws)[k] by {
        lemma_reading_order_members(ws, k);
    }
    if ws.len() > 0 {
        law_reading_order(ws.drop_last());
        let sorted = reading_order(ws.drop_last());
        let w = ws.last();
        let p = insert_pos(sorted, w);
        lemma_insert_pos_splits(sorted, w);
        lemma_insert_pos_range(sorted, w);
        let r = sorted.insert(p, w);
        assert forall|i: int, j: int| 0 <= i < j < r.len() implies reads_before_or_with(
            #[trigger] r[i],
            #[trigger] r[j],
        ) by {
            if j < p {
                assert(reads_before_or_with(sorted[i], sorted[j]));
            } else if j == p {
                assert(reads_before_or_with(sorted[i], w));
            } else if i < p {
                assert(reads_before_or_with(sorted[i], sorted[j - 1]));
            } else if i == p {
                assert(reads_before_or_with(w, sorted[j - 1]));
            } else {
                assert(reads_before_or_with(sorted[i - 1], sorted[j - 1]));
            }
        }
    }
}

} // verus!
