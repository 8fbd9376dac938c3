//! The memory block that is injected into a prompt, capped at a number of
//! tokens.
//!
//! Items come in descending order of their score, so capping drops item lines
//! (`- …`) from the end until the block fits, and a note records how many were
//! left out.
use vstd::prelude::*;

use crate::text::{
    chars_of, decimal, decimal_of, has_prefix, has_suffix, is_space, join_of, line_end, lines, lines_of,
    prefix_of, strip_cr, strip_prefixes, strip_suffixes, take, trim, trim_end, trim_end_matches, trim_end_of,
    trim_of, trim_start, trim_start_matches, trim_start_of, views,
};

verus! {

/// Characters per token in every estimate.
pub const CHARS_PER_TOKEN: usize = 4;

/// Opening tag of the memory block.
pub const MEMORY_BLOCK_OPEN: &'static str = "<kevin-memory>";

/// Closing tag of the memory block.
pub const MEMORY_BLOCK_CLOSE: &'static str = "</kevin-memory>";

/// Room kept for the omission note while items are dropped (its exact length
/// depends on the count).
pub const NOTE_RESERVE: usize = 96;

// ---------------------------------------------------------------------------
// Model
// ---------------------------------------------------------------------------
/// Rough token count of a text: four characters per token, rounded up.
pub open spec fn tokens_of(s: Seq<char>) -> nat {
    (s.len() + 3) / 4
}

/// The line is an item.
pub open spec fn is_item(line: Seq<char>) -> bool {
    has_prefix(trim_start_of(line), "- "@)
}

/// Characters of the lines, each with its line feed.
pub open spec fn line_chars(lines: Seq<Seq<char>>) -> nat
    decreases lines.len(),
{
    if lines.len() == 0 {
        0
    } else {
        line_chars(lines.drop_last()) + lines.last().len() + 1
    }
}

/// Index of the last item among the first `kept` lines, or -1.
pub open spec fn last_item(lines: Seq<Seq<char>>, kept: nat) -> int
    decreases kept,
{
    if kept == 0 {
        -1
    } else if is_item(lines[kept - 1]) {
        kept - 1
    } else {
        last_item(lines, (kept - 1) as nat)
    }
}

/// Characters of the tags and of the line feed before the closing one.
pub open spec fn frame_chars() -> int {
    MEMORY_BLOCK_OPEN@.len() as int + MEMORY_BLOCK_CLOSE@.len() as int + 1
}

/// Characters of the block with the first `kept` lines, with room for the note
/// where items are missing.
pub open spec fn block_chars(lines: Seq<Seq<char>>, kept: nat, dropped: nat) -> int {
    frame_chars() + line_chars(lines.subrange(0, kept as int)) + (if dropped > 0 {
        NOTE_RESERVE as int
    } else {
        0
    })
}

/// How many lines stay and how many items were dropped, once items are dropped
/// from the end until the block has no more than `max` characters. Dropping an
/// item cuts the block there.
pub open spec fn drop_items(lines: Seq<Seq<char>>, kept: nat, dropped: nat, max: int) -> (nat, nat)
    decreases kept,
{
    let p = last_item(lines, kept);
    if block_chars(lines, kept, dropped) <= max || p < 0 || p >= kept {
        (kept, dropped)
    } else {
        drop_items(lines, p as nat, dropped + 1, max)
    }
}

/// Each line with a line feed before it.
pub open spec fn appended(lines: Seq<Seq<char>>) -> Seq<char>
    decreases lines.len(),
{
    if lines.len() == 0 {
        Seq::empty()
    } else {
        appended(lines.drop_last()) + seq!['\n'] + lines.last()
    }
}

/// The note about `dropped` items.
pub open spec fn note_of(dropped: nat, max_tokens: nat) -> Seq<char> {
    "\n- […] "@ + decimal_of(dropped)
        + " lower-scored item(s) omitted (memory.context_max_tokens = "@ + decimal_of(max_tokens)
        + ")"@
}

/// The cap in characters.
pub open spec fn max_chars_of(max_tokens: usize) -> int {
    if max_tokens * 4 > usize::MAX {
        usize::MAX as int
    } else {
        max_tokens * 4
    }
}

/// Characters of the tags and the line feeds inside them.
pub open spec fn tag_chars() -> int {
    MEMORY_BLOCK_OPEN@.len() as int + MEMORY_BLOCK_CLOSE@.len() as int + 2
}

/// How many lines of a body stay and how many items are dropped.
pub open spec fn kept_and_dropped(lines: Seq<Seq<char>>, max_tokens: usize) -> (nat, nat) {
    drop_items(lines, lines.len(), 0, max_chars_of(max_tokens))
}

/// The first `kept` lines inside the tags, with the note where items are missing.
pub open spec fn wrapped(
    lines: Seq<Seq<char>>,
    kept: nat,
    dropped: nat,
    max_tokens: nat,
) -> Seq<char> {
    let note = if dropped > 0 {
        note_of(dropped, max_tokens)
    } else {
        Seq::empty()
    };
    MEMORY_BLOCK_OPEN@ + appended(lines.subrange(0, kept as int)) + note + seq!['\n']
        + MEMORY_BLOCK_CLOSE@
}

/// The text without tags around it.
pub open spec fn untagged(s: Seq<char>) -> Seq<char> {
    trim_of(strip_suffixes(strip_prefixes(s, MEMORY_BLOCK_OPEN@), MEMORY_BLOCK_CLOSE@))
}

/// The block cut to the cap, with its tags whole.
pub open spec fn truncated(block: Seq<char>, max_tokens: usize) -> Seq<char> {
    let budget: nat = if max_chars_of(max_tokens) > tag_chars() {
        (max_chars_of(max_tokens) - tag_chars()) as nat
    } else {
        0
    };
    MEMORY_BLOCK_OPEN@ + seq!['\n'] + trim_end_of(prefix_of(untagged(block), budget)) + seq!['\n']
        + MEMORY_BLOCK_CLOSE@
}

/// The capped block of a body, and the number of items dropped.
pub open spec fn capped(body: Seq<char>, max_tokens: usize) -> (Seq<char>, nat) {
    let lines = lines_of(body);
    let (kept, dropped) = kept_and_dropped(lines, max_tokens);
    let block = wrapped(lines, kept, dropped, max_tokens as nat);
    if tokens_of(block) > max_tokens {
        (truncated(block, max_tokens), dropped)
    } else {
        (block, dropped)
    }
}

/// What stands between the tags of `items`, which may be wrapped already.
pub open spec fn body_of(items: Seq<char>) -> Seq<char> {
    untagged(trim_of(items))
}

// ---------------------------------------------------------------------------
// Operations
// ---------------------------------------------------------------------------
/// Rough token count of `text`.
pub fn estimate_tokens(text: &str) -> (n: usize)
    ensures
        n == tokens_of(text@),
{
    let n: usize = chars_of(text).len();
    n / 4 + (if n % 4 > 0 {
        1
    } else {
        0
    })
}

/// Number of items among the first `n` lines.
pub open spec fn items_before(lines: Seq<Seq<char>>, n: nat) -> nat
    decreases n,
{
    if n == 0 {
        0
    } else {
        items_before(lines, (n - 1) as nat) + (if is_item(lines[n - 1]) {
            1nat
        } else {
            0
        })
    }
}

/// The number of items in a body.
fn count_items(body: &str) -> (n: usize)
    ensures
        n == items_before(lines_of(body@), lines_of(body@).len()),
{
    let lines = lines(body);
    let mut n: usize = 0;
    let mut i: usize = 0;
    while i < lines.len()
        invariant
            i <= lines@.len(),
            n <= i,
            n == items_before(views(lines@), i as nat),
        decreases lines@.len() - i,
    {
        assert(views(lines@)[i as int] == lines@[i as int]@);
        if item(lines[i].as_str()) {
            n = n + 1;
        }
        i = i + 1;
    }
    n
}

fn item(line: &str) -> (b: bool)
    ensures
        b == is_item(line@),
{
    crate::text::starts_with(trim_start(line).as_str(), "- ")
}

proof fn lemma_last_item(lines: Seq<Seq<char>>, kept: nat)
    requires
        kept <= lines.len(),
    ensures
        -1 <= last_item(lines, kept) < kept,
        last_item(lines, kept) >= 0 ==> is_item(lines[last_item(lines, kept)]),
        forall|i: int| last_item(lines, kept) < i < kept ==> !is_item(#[trigger] lines[i]),
    decreases kept,
{
    if kept > 0 && !is_item(lines[kept - 1]) {
        lemma_last_item(lines, (kept - 1) as nat);
    }
}

fn find_last_item(lines: &Vec<String>, kept: usize) -> (r: Option<usize>)
    requires
        kept <= lines@.len(),
    ensures
        match r {
            Some(p) => p < kept && p == last_item(views(lines@), kept as nat),
            None => last_item(views(lines@), kept as nat) == -1,
        },
{
    let mut i: usize = kept;
    while i > 0
        invariant
            i <= kept <= lines@.len(),
            last_item(views(lines@), kept as nat) == last_item(views(lines@), i as nat),
        decreases i,
    {
        assert(views(lines@)[i - 1] == lines@[i - 1]@);
        if item(lines[i - 1].as_str()) {
            return Some(i - 1);
        }
        i = i - 1;
    }
    None
}

/// For every number of lines, the characters of that many.
fn count_chars(lines: &Vec<String>) -> (sums: Vec<u128>)
    ensures
        sums@.len() == lines@.len() + 1,
        forall|k: int|
            0 <= k <= lines@.len() ==> #[trigger] sums@[k] == line_chars(
                views(lines@).subrange(0, k),
            ),
        forall|k: int|
            0 <= k <= lines@.len() ==> #[trigger] sums@[k]
                <= 0xffff_ffff_ffff_ffff_0000_0000_0000_0000,
{
    let mut sums: Vec<u128> = Vec::new();
    let mut n: u128 = 0;
    let mut i: usize = 0;
    sums.push(0);
    while i < lines.len()
        invariant
            i <= lines.len(),
            sums@.len() == i + 1,
            n == sums@[i as int],
            n <= i * 0x1_0000_0000_0000_0000,
            forall|k: int|
                0 <= k <= i ==> #[trigger] sums@[k] == line_chars(views(lines@).subrange(0, k)),
            forall|k: int|
                0 <= k <= i ==> #[trigger] sums@[k]
                    <= 0xffff_ffff_ffff_ffff_0000_0000_0000_0000,
        decreases lines@.len() - i,
    {
        let len: usize = chars_of(lines[i].as_str()).len();
        proof {
            let next = views(lines@).subrange(0, i + 1);
            assert(next.drop_last() =~= views(lines@).subrange(0, i as int));
            assert(next.last() == lines@[i as int]@);
        }
        n = n + (len as u128) + 1;
        sums.push(n);
        i = i + 1;
    }
    sums
}

fn max_chars(max_tokens: usize) -> (n: usize)
    ensures
        n == max_chars_of(max_tokens),
{
    if max_tokens > usize::MAX / 4 {
        usize::MAX
    } else {
        max_tokens * 4
    }
}

/// Drops items from the end until the block has no more than `limit` characters.
fn drop_from_end(lines: &Vec<String>, limit: usize) -> (r: (usize, usize))
    ensures
        (r.0 as nat, r.1 as nat) == drop_items(views(lines@), lines@.len(), 0, limit as int),
        r.0 <= lines@.len(),
{
    let ghost all = views(lines@);
    let sums = count_chars(lines);
    let frame: u128 = frame_len() as u128;
    let mut kept: usize = lines.len();
    let mut dropped: usize = 0;
    let mut chars: u128 = frame + sums[kept];
    while chars > (limit as u128)
        invariant
            kept <= lines@.len(),
            dropped + kept <= lines.len(),
            all == views(lines@),
            frame == frame_chars(),
            frame == 30,
            sums@.len() == lines@.len() + 1,
            forall|k: int|
                0 <= k <= lines@.len() ==> #[trigger] sums@[k] == line_chars(all.subrange(0, k)),
            forall|k: int|
                0 <= k <= lines@.len() ==> #[trigger] sums@[k]
                    <= 0xffff_ffff_ffff_ffff_0000_0000_0000_0000,
            chars == block_chars(all, kept as nat, dropped as nat),
            drop_items(all, kept as nat, dropped as nat, limit as int) == drop_items(
                all,
                lines@.len(),
                0,
                limit as int,
            ),
        decreases kept,
    {
        match find_last_item(lines, kept) {
            Some(pos) => {
                kept = pos;
                dropped = dropped + 1;
                chars = frame + sums[kept] + 96;
            },
            None => {
                return (kept, dropped);
            },
        }
    }
    (kept, dropped)
}

/// The text without tags around it.
fn untag(text: &str) -> (r: String)
    ensures
        r@ == untagged(text@),
{
    let inner = trim_start_matches(text, MEMORY_BLOCK_OPEN);
    let inner = trim_end_matches(inner.as_str(), MEMORY_BLOCK_CLOSE);
    trim(inner.as_str())
}

fn tag_len() -> (n: usize)
    ensures
        n == tag_chars(),
        n == 31,
{
    proof {
        reveal_strlit("<kevin-memory>");
        reveal_strlit("</kevin-memory>");
    }
    chars_of(MEMORY_BLOCK_OPEN).len() + chars_of(MEMORY_BLOCK_CLOSE).len() + 2
}

fn frame_len() -> (n: usize)
    ensures
        n == frame_chars(),
        n == 30,
{
    tag_len() - 1
}

/// The first `kept` lines inside the tags, with the note where items are missing.
fn wrap(lines: &Vec<String>, kept: usize, dropped: usize, max_tokens: usize) -> (r: String)
    requires
        kept <= lines@.len(),
    ensures
        r@ == wrapped(views(lines@), kept as nat, dropped as nat, max_tokens as nat),
{
    let ghost all = views(lines@);
    let mut out = MEMORY_BLOCK_OPEN.to_owned();
    let mut i: usize = 0;
    assert(out@ =~= MEMORY_BLOCK_OPEN@ + appended(all.subrange(0, 0)));
    while i < kept
        invariant
            i <= kept <= lines@.len(),
            all == views(lines@),
            out@ == MEMORY_BLOCK_OPEN@ + appended(all.subrange(0, i as int)),
        decreases kept - i,
    {
        out.push('\n');
        out.append(lines[i].as_str());
        proof {
            let next = all.subrange(0, i + 1);
            assert(next.drop_last() =~= all.subrange(0, i as int));
            assert(next.last() == lines@[i as int]@);
            assert(out@ =~= MEMORY_BLOCK_OPEN@ + appended(next));
        }
        i = i + 1;
    }
    let ghost head = out@;
    if dropped > 0 {
        out.append("\n- […] ");
        let count = decimal(dropped as u64);
        out.append(count.as_str());
        out.append(" lower-scored item(s) omitted (memory.context_max_tokens = ");
        let cap = decimal(max_tokens as u64);
        out.append(cap.as_str());
        out.append(")");
        assert(out@ =~= head + note_of(dropped as nat, max_tokens as nat));
    } else {
        assert(out@ =~= head + Seq::<char>::empty());
    }
    out.push('\n');
    out.append(MEMORY_BLOCK_CLOSE);
    assert(out@ =~= wrapped(all, kept as nat, dropped as nat, max_tokens as nat));
    out
}

/// Wraps `body` and drops item lines from the end until it fits `max_tokens`.
pub fn cap_block(body: &str, max_tokens: usize) -> (r: (String, usize))
    ensures
        (r.0@, r.1 as nat) == capped(body@, max_tokens),
{
    let limit: usize = max_chars(max_tokens);
    let tags: usize = tag_len();
    let lines = lines(body);
    let (kept, dropped) = drop_from_end(&lines, limit);
    let block = wrap(&lines, kept, dropped, max_tokens);
    if estimate_tokens(block.as_str()) <= max_tokens {
        return (block, dropped);
    }
    let budget: usize = if limit > tags {
        limit - tags
    } else {
        0
    };
    let inner = untag(block.as_str());
    let inner = take(inner.as_str(), budget);
    let inner = trim_end(inner.as_str());
    let mut out = MEMORY_BLOCK_OPEN.to_owned();
    out.push('\n');
    out.append(inner.as_str());
    out.push('\n');
    out.append(MEMORY_BLOCK_CLOSE);
    assert(out@ =~= truncated(block@, max_tokens));
    (out, dropped)
}

/// The capped memory block of a prompt.
#[derive(Debug, PartialEq, Eq)]
pub struct MemoryBlock {
    text: String,
    max_tokens: usize,
    carried: usize,
    dropped: usize,
}

/// A memory block: its text, its cap, and how many items it carries and how many
/// were dropped.
pub struct MemoryBlockView {
    pub text: Seq<char>,
    pub max_tokens: usize,
    pub carried: nat,
    pub dropped: nat,
}

impl View for MemoryBlock {
    type V = MemoryBlockView;

    closed spec fn view(&self) -> MemoryBlockView {
        MemoryBlockView {
            text: self.text@,
            max_tokens: self.max_tokens,
            carried: self.carried as nat,
            dropped: self.dropped as nat,
        }
    }
}

impl MemoryBlock {
    /// The block of `items` under a cap.
    pub open spec fn of(items: Seq<char>, max_tokens: usize) -> MemoryBlockView {
        let lines = lines_of(body_of(items));
        MemoryBlockView {
            text: capped(body_of(items), max_tokens).0,
            max_tokens,
            carried: items_before(lines, kept_and_dropped(lines, max_tokens).0),
            dropped: capped(body_of(items), max_tokens).1,
        }
    }

    /// Wraps `items` in the memory tags and caps the result at `max_tokens`. An
    /// already wrapped block is accepted: the tags are not doubled.
    pub fn new(items: &str, max_tokens: usize) -> (r: MemoryBlock)
        ensures
            r@ == MemoryBlock::of(items@, max_tokens),
    {
        let trimmed = trim(items);
        let body = untag(trimmed.as_str());
        let (text, dropped) = cap_block(body.as_str(), max_tokens);
        let all = count_items(body.as_str());
        proof {
            let lines = lines_of(body@);
            law_drops_the_last_items(items@, max_tokens);
            lemma_items_split(lines, kept_and_dropped(lines, max_tokens).0);
        }
        MemoryBlock { text, max_tokens, carried: all - dropped, dropped }
    }

    /// The capped block with its tags.
    pub fn text(&self) -> (r: &str)
        ensures
            r@ == self@.text,
    {
        self.text.as_str()
    }

    /// The cap.
    pub fn max_tokens(&self) -> (r: usize)
        ensures
            r == self@.max_tokens,
    {
        self.max_tokens
    }

    /// Estimated tokens of the block.
    pub fn estimated_tokens(&self) -> (r: usize)
        ensures
            r == tokens_of(self@.text),
    {
        estimate_tokens(self.text.as_str())
    }

    /// How many item lines the cap dropped.
    pub fn dropped_items(&self) -> (r: usize)
        ensures
            r == self@.dropped,
    {
        self.dropped
    }

    /// Whether the block carries no item at all; the note about dropped items is
    /// none.
    pub fn is_empty(&self) -> (b: bool)
        ensures
            b == (self@.carried == 0),
    {
        self.carried == 0
    }
}

// ---------------------------------------------------------------------------
// Laws
// ---------------------------------------------------------------------------
proof fn lemma_tags()
    ensures
        MEMORY_BLOCK_OPEN@.len() == 14,
        MEMORY_BLOCK_CLOSE@.len() == 15,
        MEMORY_BLOCK_OPEN@[0] == '<',
        MEMORY_BLOCK_CLOSE@[0] == '<',
        MEMORY_BLOCK_CLOSE@[14] == '>',
{
    reveal_strlit("<kevin-memory>");
    reveal_strlit("</kevin-memory>");
}

/// The estimate of a block is never above its cap, for every cap that has room
/// for the tags themselves (31 characters, 8 tokens).
pub proof fn law_never_above_the_cap(items: Seq<char>, max_tokens: usize)
    requires
        max_tokens >= 8,
    ensures
        tokens_of(MemoryBlock::of(items, max_tokens).text) <= max_tokens,
{
    lemma_tags();
    let lines = lines_of(body_of(items));
    let (kept, dropped) = kept_and_dropped(lines, max_tokens);
    let block = wrapped(lines, kept, dropped, max_tokens as nat);
    if tokens_of(block) > max_tokens {
        let budget = (max_chars_of(max_tokens) - tag_chars()) as nat;
        let inner = prefix_of(untagged(block), budget);
        crate::text::lemma_trim_bounds(inner);
        assert(inner.len() <= budget);
        assert(truncated(block, max_tokens).len() <= max_chars_of(max_tokens));
    }
}

/// A block always stands between its tags.
pub proof fn law_tags_are_whole(items: Seq<char>, max_tokens: usize)
    ensures
        has_prefix(MemoryBlock::of(items, max_tokens).text, MEMORY_BLOCK_OPEN@),
        has_suffix(MemoryBlock::of(items, max_tokens).text, MEMORY_BLOCK_CLOSE@),
{
    let text = MemoryBlock::of(items, max_tokens).text;
    assert(text.subrange(0, MEMORY_BLOCK_OPEN@.len() as int) =~= MEMORY_BLOCK_OPEN@);
    assert(text.subrange(text.len() - MEMORY_BLOCK_CLOSE@.len(), text.len() as int)
        =~= MEMORY_BLOCK_CLOSE@);
}

/// Number of items among the lines from `from` on.
pub open spec fn items_from(lines: Seq<Seq<char>>, from: int) -> nat
    decreases lines.len() - from,
{
    if from < 0 || from >= lines.len() {
        0
    } else {
        items_from(lines, from + 1) + (if is_item(lines[from]) {
            1nat
        } else {
            0
        })
    }
}

proof fn lemma_items_between(lines: Seq<Seq<char>>, a: int, b: int)
    requires
        0 <= a <= b <= lines.len(),
        forall|i: int| a <= i < b ==> !is_item(#[trigger] lines[i]),
    ensures
        items_from(lines, a) == items_from(lines, b),
    decreases b - a,
{
    if a < b {
        assert(!is_item(lines[a]));
        lemma_items_between(lines, a + 1, b);
    }
}

/// Every item stands before a line or not.
proof fn lemma_items_split(lines: Seq<Seq<char>>, n: nat)
    requires
        n <= lines.len(),
    ensures
        items_before(lines, n) + items_from(lines, n as int) == items_before(lines, lines.len()),
    decreases lines.len() - n,
{
    if n < lines.len() {
        lemma_items_split(lines, n + 1);
    }
}

proof fn lemma_dropped(lines: Seq<Seq<char>>, kept: nat, dropped: nat, max: int)
    requires
        kept <= lines.len(),
        dropped == items_from(lines, kept as int),
    ensures
        drop_items(lines, kept, dropped, max).0 <= kept,
        drop_items(lines, kept, dropped, max).1 == items_from(
            lines,
            drop_items(lines, kept, dropped, max).0 as int,
        ),
    decreases kept,
{
    lemma_last_item(lines, kept);
    let p = last_item(lines, kept);
    if block_chars(lines, kept, dropped) > max && p >= 0 {
        lemma_items_between(lines, p + 1, kept as int);
        lemma_dropped(lines, p as nat, dropped + 1, max);
    }
}

/// Items are dropped from the end only, and the count is the number of items in
/// the part that was cut; the items before it are carried.
pub proof fn law_drops_the_last_items(items: Seq<char>, max_tokens: usize)
    ensures
        ({
            let lines = lines_of(body_of(items));
            let (kept, dropped) = kept_and_dropped(lines, max_tokens);
            &&& kept <= lines.len()
            &&& MemoryBlock::of(items, max_tokens).dropped == dropped
            &&& dropped == items_from(lines, kept as int)
            &&& MemoryBlock::of(items, max_tokens).carried + dropped == items_before(
                lines,
                lines.len(),
            )
        }),
{
    let lines = lines_of(body_of(items));
    assert(items_from(lines, lines.len() as int) == 0);
    lemma_dropped(lines, lines.len(), 0, max_chars_of(max_tokens));
    lemma_items_split(lines, kept_and_dropped(lines, max_tokens).0);
}

/// A block that fits its cap loses nothing, also where it fits exactly.
pub proof fn law_a_block_that_fits_is_whole(body: Seq<char>, max_tokens: usize)
    requires
        wrapped(lines_of(body), lines_of(body).len(), 0, max_tokens as nat).len() <= max_chars_of(
            max_tokens,
        ),
    ensures
        capped(body, max_tokens) == (
            wrapped(lines_of(body), lines_of(body).len(), 0, max_tokens as nat),
            0nat,
        ),
{
    let lines = lines_of(body);
    let block = wrapped(lines, lines.len(), 0, max_tokens as nat);
    assert(lines.subrange(0, lines.len() as int) =~= lines);
    lemma_appended_len(lines);
    assert(block.len() == block_chars(lines, lines.len(), 0));
}

/// No line feed in any line.
proof fn lemma_lines_plain(s: Seq<char>)
    ensures
        forall|i: int, j: int|
            0 <= i < lines_of(s).len() && 0 <= j < lines_of(s)[i].len() ==> (
            #[trigger] lines_of(s)[i][j]) != '\n',
    decreases s.len(),
{
    if s.len() > 0 {
        let n = line_end(s);
        crate::text::lemma_line_end(s);
        if n < s.len() {
            let rest = s.subrange(n + 1, s.len() as int);
            lemma_lines_plain(rest);
            let all = lines_of(s);
            assert forall|i: int, j: int| 0 <= i < all.len() && 0 <= j < all[i].len() implies (
            #[trigger] all[i][j]) != '\n' by {
                if i == 0 {
                    assert(all[0][j] == s[j]);
                } else {
                    assert(all[i] == lines_of(rest)[i - 1]);
                    assert(lines_of(rest)[i - 1][j] != '\n');
                }
            }
        }
    }
}

/// The first and the last line of a trimmed text begin and end as it does.
proof fn lemma_lines_ends(s: Seq<char>)
    requires
        s.len() > 0,
        s.last() != '\n',
    ensures
        lines_of(s).len() > 0,
        lines_of(s).last().len() > 0,
        lines_of(s).last().last() == s.last(),
        !is_space(s[0]) ==> lines_of(s)[0].len() > 0 && lines_of(s)[0][0] == s[0],
    decreases s.len(),
{
    let n = line_end(s);
    crate::text::lemma_line_end(s);
    if n < s.len() {
        let rest = s.subrange(n + 1, s.len() as int);
        assert(n != s.len() - 1);
        assert(rest.last() == s.last());
        lemma_lines_ends(rest);
        let head = s.subrange(0, n);
        assert(lines_of(s) == seq![strip_cr(head)] + lines_of(rest));
        assert(lines_of(s).last() == lines_of(rest).last());
        if !is_space(s[0]) {
            assert(n > 0);
            assert(head[0] == s[0]);
        }
    }
}

proof fn lemma_join_front(parts: Seq<Seq<char>>, sep: Seq<char>)
    requires
        parts.len() >= 2,
    ensures
        join_of(parts, sep) == parts[0] + sep + join_of(
            parts.subrange(1, parts.len() as int),
            sep,
        ),
    decreases parts.len(),
{
    let tail = parts.subrange(1, parts.len() as int);
    if parts.len() == 2 {
        assert(parts.drop_last().len() == 1);
        assert(join_of(parts.drop_last(), sep) == parts[0]);
        assert(join_of(tail, sep) == parts[1]);
    } else {
        let init = parts.drop_last();
        lemma_join_front(init, sep);
        assert(init.subrange(1, init.len() as int) =~= tail.drop_last());
        assert(tail.last() == parts.last());
        assert(join_of(tail, sep) == join_of(tail.drop_last(), sep) + sep + parts.last());
        assert(join_of(parts, sep) =~= parts[0] + sep + join_of(tail, sep));
    }
}

/// Cutting joined lines into lines again gives them back.
proof fn lemma_lines_of_join(parts: Seq<Seq<char>>)
    requires
        parts.len() > 0,
        parts.last().len() > 0,
        forall|i: int, j: int|
            0 <= i < parts.len() && 0 <= j < parts[i].len() ==> (#[trigger] parts[i][j]) != '\n',
        forall|i: int|
            0 <= i < parts.len() ==> ((#[trigger] parts[i]).len() > 0 ==> parts[i].last() != '\r'),
    ensures
        lines_of(join_of(parts, seq!['\n'])) == parts,
        join_of(parts, seq!['\n']).len() > 0,
        join_of(parts, seq!['\n']).last() == parts.last().last(),
        parts[0].len() > 0 ==> join_of(parts, seq!['\n'])[0] == parts[0][0],
    decreases parts.len(),
{
    let sep = seq!['\n'];
    let s = join_of(parts, sep);
    if parts.len() == 1 {
        assert forall|i: int| 0 <= i < s.len() implies s[i] != '\n' by {
            assert(parts[0][i] != '\n');
        }
        crate::text::lemma_line_end_unique(s, s.len() as int);
        assert(lines_of(s) =~= parts);
    } else {
        lemma_join_front(parts, sep);
        let tail = parts.subrange(1, parts.len() as int);
        assert forall|i: int, j: int| 0 <= i < tail.len() && 0 <= j < tail[i].len() implies (
        #[trigger] tail[i][j]) != '\n' by {
            assert(tail[i] == parts[i + 1]);
            assert(parts[i + 1][j] != '\n');
        }
        assert forall|i: int| 0 <= i < tail.len() && (#[trigger] tail[i]).len() > 0 implies
            tail[i].last() != '\r' by {
            assert(tail[i] == parts[i + 1]);
        }
        assert(tail.last() == parts.last());
        lemma_lines_of_join(tail);
        let n = parts[0].len() as int;
        assert(s[n] == '\n');
        assert forall|i: int| 0 <= i < n implies s[i] != '\n' by {
            assert(s[i] == parts[0][i]);
        }
        crate::text::lemma_line_end_unique(s, n);
        assert(s.subrange(0, n) =~= parts[0]);
        assert(strip_cr(parts[0]) == parts[0]) by {
            if parts[0].len() > 0 {
                assert(parts[0].last() != '\r');
            }
        }
        assert(s.subrange(n + 1, s.len() as int) =~= join_of(tail, sep));
        assert(lines_of(s) =~= parts);
        assert(s.last() == join_of(tail, sep).last());
    }
}

proof fn lemma_appended_is_join(lines: Seq<Seq<char>>)
    requires
        lines.len() > 0,
    ensures
        appended(lines) == seq!['\n'] + join_of(lines, seq!['\n']),
    decreases lines.len(),
{
    if lines.len() == 1 {
        assert(appended(lines.drop_last()) =~= Seq::<char>::empty());
        assert(appended(lines) =~= seq!['\n'] + lines[0]);
    } else {
        lemma_appended_is_join(lines.drop_last());
        assert(appended(lines) =~= seq!['\n'] + join_of(lines, seq!['\n']));
    }
}

proof fn lemma_appended_len(lines: Seq<Seq<char>>)
    ensures
        appended(lines).len() == line_chars(lines),
    decreases lines.len(),
{
    if lines.len() > 0 {
        lemma_appended_len(lines.drop_last());
    }
}

proof fn lemma_trimmed_ends(s: Seq<char>)
    ensures
        trim_of(s).len() > 0 ==> !is_space(trim_of(s)[0]) && !is_space(trim_of(s).last()),
{
    let t = trim_start_of(s);
    lemma_trim_start_first(s);
    lemma_trim_end_last(t);
}

proof fn lemma_trim_start_first(s: Seq<char>)
    ensures
        trim_start_of(s).len() > 0 ==> !is_space(trim_start_of(s)[0]),
    decreases s.len(),
{
    if s.len() > 0 && is_space(s[0]) {
        lemma_trim_start_first(s.subrange(1, s.len() as int));
    }
}

proof fn lemma_trim_end_last(s: Seq<char>)
    ensures
        trim_end_of(s).len() > 0 ==> !is_space(trim_end_of(s).last()) && trim_end_of(s)[0] == s[0],
    decreases s.len(),
{
    if s.len() > 0 && is_space(s.last()) {
        lemma_trim_end_last(s.drop_last());
        if trim_end_of(s).len() > 0 {
            crate::text::lemma_trim_bounds(s.drop_last());
            assert(s.drop_last()[0] == s[0]);
        }
    }
}

/// The text between the tags of a wrapped block is found again.
proof fn lemma_body_of_wrapped(lines: Seq<Seq<char>>, block: Seq<char>, inner: Seq<char>)
    requires
        block == MEMORY_BLOCK_OPEN@ + appended(lines) + seq!['\n'] + MEMORY_BLOCK_CLOSE@,
        inner == trim_of(appended(lines) + seq!['\n']),
    ensures
        body_of(block) == inner,
{
    lemma_tags();
    let open = MEMORY_BLOCK_OPEN@;
    let close = MEMORY_BLOCK_CLOSE@;
    let rest = appended(lines) + seq!['\n'] + close;
    let core = appended(lines) + seq!['\n'];
    assert(block[0] == '<' && block.last() == '>');
    assert(trim_start_of(block) == block);
    assert(trim_of(block) == block);
    assert(block.subrange(0, 14) =~= open);
    assert(block.subrange(14, block.len() as int) =~= rest);
    if lines.len() > 0 {
        lemma_appended_is_join(lines);
    }
    assert(rest[0] == '\n');
    assert(!has_prefix(rest, open)) by {
        if has_prefix(rest, open) {
            assert(rest.subrange(0, 14)[0] == rest[0]);
        }
    }
    assert(strip_prefixes(rest, open) == rest);
    assert(strip_prefixes(block, open) == rest);
    assert(rest.subrange(rest.len() - 15, rest.len() as int) =~= close);
    assert(rest.subrange(0, rest.len() - 15) =~= core);
    assert(!has_suffix(core, close)) by {
        if has_suffix(core, close) {
            let t = core.subrange(core.len() - 15, core.len() as int);
            assert(t[14] == core[core.len() - 1]);
        }
    }
    assert(strip_suffixes(core, close) == core);
    assert(strip_suffixes(rest, close) == core);
}

/// Wrapping a wrapped block again does not double its tags: a block that fits
/// its cap comes out unchanged, unless a line of it ends in a carriage return of
/// its own.
pub proof fn law_rewrapping_changes_nothing(items: Seq<char>, max_tokens: usize)
    requires
        frame_chars() + line_chars(lines_of(body_of(items))) <= max_chars_of(max_tokens),
        forall|i: int|
            0 <= i < lines_of(body_of(items)).len() ==> ((#[trigger] lines_of(
                body_of(items),
            )[i]).len() > 0 ==> lines_of(body_of(items))[i].last() != '\r'),
    ensures
        MemoryBlock::of(MemoryBlock::of(items, max_tokens).text, max_tokens) == MemoryBlock::of(
            items,
            max_tokens,
        ),
        MemoryBlock::of(items, max_tokens).dropped == 0,
{
    lemma_tags();
    let body = body_of(items);
    let lines = lines_of(body);
    let block = wrapped(lines, lines.len(), 0, max_tokens as nat);
    assert(lines.subrange(0, lines.len() as int) =~= lines);
    assert(block =~= MEMORY_BLOCK_OPEN@ + appended(lines) + seq!['\n'] + MEMORY_BLOCK_CLOSE@);
    lemma_appended_len(lines);
    assert(tokens_of(block) <= max_tokens);
    assert(MemoryBlock::of(items, max_tokens).text == block);
    let inner = trim_of(appended(lines) + seq!['\n']);
    lemma_body_of_wrapped(lines, block, inner);
    lemma_trimmed_ends(
        strip_suffixes(
            strip_prefixes(trim_of(items), MEMORY_BLOCK_OPEN@),
            MEMORY_BLOCK_CLOSE@,
        ),
    );
    if body.len() == 0 {
        assert(lines =~= Seq::<Seq<char>>::empty());
        let core = appended(lines) + seq!['\n'];
        assert(core =~= seq!['\n']);
        assert(is_space('\n'));
        crate::text::lemma_trim_start(core, 1);
        assert(trim_start_of(core) =~= Seq::<char>::empty());
        assert(inner =~= Seq::<char>::empty());
        assert(lines_of(inner) =~= lines);
    } else {
        assert(is_space('\n'));
        lemma_lines_ends(body);
        lemma_lines_plain(body);
        assert(is_space('\r'));
        lemma_lines_of_join(lines);
        let joined = join_of(lines, seq!['\n']);
        lemma_appended_is_join(lines);
        let core = seq!['\n'] + joined + seq!['\n'];
        assert(core =~= appended(lines) + seq!['\n']);
        assert(core[1] == joined[0]);
        crate::text::lemma_trim_start(core, 1);
        let t = core.subrange(1, core.len() as int);
        assert(t =~= joined + seq!['\n']);
        assert(t[joined.len() - 1] == joined.last());
        crate::text::lemma_trim_end(t, joined.len() as int);
        assert(t.subrange(0, joined.len() as int) =~= joined);
        assert(inner == joined);
        assert(lines_of(inner) == lines);
    }
}

/// The lines of a text hold none but its own characters, and with a line feed
/// each they are at most one character longer.
proof fn lemma_lines_short(s: Seq<char>)
    ensures
        line_chars(lines_of(s)) <= s.len() + 1,
        forall|i: int, j: int|
            0 <= i < lines_of(s).len() && 0 <= j < lines_of(s)[i].len() ==> s.contains(
                #[trigger] lines_of(s)[i][j],
            ),
    decreases s.len(),
{
    let all = lines_of(s);
    if s.len() > 0 {
        let n = line_end(s);
        crate::text::lemma_line_end(s);
        if n < s.len() {
            let rest = s.subrange(n + 1, s.len() as int);
            let head = strip_cr(s.subrange(0, n));
            lemma_lines_short(rest);
            assert(all == seq![head] + lines_of(rest));
            lemma_line_chars_front(all);
            assert(all.subrange(1, all.len() as int) =~= lines_of(rest));
            assert forall|i: int, j: int| 0 <= i < all.len() && 0 <= j < all[i].len() implies s.contains(
                #[trigger] all[i][j],
            ) by {
                if i == 0 {
                    assert(all[0][j] == s[j]);
                } else {
                    assert(all[i] == lines_of(rest)[i - 1]);
                    let c = lines_of(rest)[i - 1][j];
                    let k = choose|k: int| 0 <= k < rest.len() && rest[k] == c;
                    assert(s[k + n + 1] == c);
                }
            }
        } else {
            lemma_line_chars_front(all);
        }
    }
}

proof fn lemma_line_chars_front(lines: Seq<Seq<char>>)
    requires
        lines.len() > 0,
    ensures
        line_chars(lines) == lines[0].len() + 1 + line_chars(
            lines.subrange(1, lines.len() as int),
        ),
    decreases lines.len(),
{
    let tail = lines.subrange(1, lines.len() as int);
    if lines.len() > 1 {
        lemma_line_chars_front(lines.drop_last());
        assert(lines.drop_last().subrange(1, lines.len() - 1) =~= tail.drop_last());
    } else {
        assert(line_chars(lines.drop_last()) == 0);
        assert(line_chars(tail) == 0);
    }
}

/// `t` is no longer than `s` and holds none but its characters.
spec fn is_part(t: Seq<char>, s: Seq<char>) -> bool {
    t.len() <= s.len() && forall|c: char| #[trigger] t.contains(c) ==> s.contains(c)
}

proof fn lemma_subrange_is_part(t: Seq<char>, s: Seq<char>, a: int, b: int)
    requires
        0 <= a <= b <= s.len(),
        is_part(t, s.subrange(a, b)),
    ensures
        is_part(t, s),
{
    assert forall|c: char| #[trigger] t.contains(c) implies s.contains(c) by {
        let part = s.subrange(a, b);
        assert(part.contains(c));
        let k = choose|k: int| 0 <= k < part.len() && part[k] == c;
        assert(s[a + k] == c);
    }
}

proof fn lemma_trim_start_is_part(s: Seq<char>)
    ensures
        is_part(trim_start_of(s), s),
    decreases s.len(),
{
    if s.len() > 0 && is_space(s[0]) {
        let rest = s.subrange(1, s.len() as int);
        lemma_trim_start_is_part(rest);
        lemma_subrange_is_part(trim_start_of(s), s, 1, s.len() as int);
    }
}

proof fn lemma_trim_end_is_part(s: Seq<char>)
    ensures
        is_part(trim_end_of(s), s),
    decreases s.len(),
{
    if s.len() > 0 && is_space(s.last()) {
        assert(s.drop_last() =~= s.subrange(0, s.len() - 1));
        lemma_trim_end_is_part(s.drop_last());
        lemma_subrange_is_part(trim_end_of(s), s, 0, s.len() - 1);
    }
}

proof fn lemma_strip_prefixes_is_part(s: Seq<char>, prefix: Seq<char>)
    ensures
        is_part(strip_prefixes(s, prefix), s),
    decreases s.len(),
{
    if prefix.len() > 0 && has_prefix(s, prefix) {
        let n = prefix.len() as int;
        lemma_strip_prefixes_is_part(s.subrange(n, s.len() as int), prefix);
        lemma_subrange_is_part(strip_prefixes(s, prefix), s, n, s.len() as int);
    }
}

proof fn lemma_strip_suffixes_is_part(s: Seq<char>, suffix: Seq<char>)
    ensures
        is_part(strip_suffixes(s, suffix), s),
    decreases s.len(),
{
    if suffix.len() > 0 && has_suffix(s, suffix) {
        let n = s.len() - suffix.len();
        lemma_strip_suffixes_is_part(s.subrange(0, n), suffix);
        lemma_subrange_is_part(strip_suffixes(s, suffix), s, 0, n);
    }
}

proof fn lemma_body_is_part(items: Seq<char>)
    ensures
        is_part(body_of(items), items),
{
    let trimmed = trim_of(items);
    let opened = strip_prefixes(trimmed, MEMORY_BLOCK_OPEN@);
    let inner = strip_suffixes(opened, MEMORY_BLOCK_CLOSE@);
    lemma_trim_start_is_part(items);
    lemma_trim_end_is_part(trim_start_of(items));
    lemma_strip_prefixes_is_part(trimmed, MEMORY_BLOCK_OPEN@);
    lemma_strip_suffixes_is_part(opened, MEMORY_BLOCK_CLOSE@);
    lemma_trim_start_is_part(inner);
    lemma_trim_end_is_part(trim_start_of(inner));
}

/// Wrapping a wrapped block again changes nothing where the text is short enough
/// that nothing has to be cut and holds no carriage return. The text has room to
/// be wrapped in memory.
pub proof fn law_rewrapping_a_short_text_changes_nothing(items: Seq<char>, max_tokens: usize)
    requires
        items.len() + 32 <= 4 * max_tokens,
        items.len() + 32 <= usize::MAX,
        !items.contains('\r'),
    ensures
        MemoryBlock::of(MemoryBlock::of(items, max_tokens).text, max_tokens) == MemoryBlock::of(
            items,
            max_tokens,
        ),
        MemoryBlock::of(items, max_tokens).dropped == 0,
{
    lemma_tags();
    let body = body_of(items);
    lemma_body_is_part(items);
    lemma_lines_short(body);
    let lines = lines_of(body);
    assert forall|i: int| 0 <= i < lines.len() && (#[trigger] lines[i]).len() > 0 implies
        lines[i].last() != '\r' by {
        let c = lines[i][lines[i].len() - 1];
        assert(body.contains(c));
    }
    law_rewrapping_changes_nothing(items, max_tokens);
}

/// A token stands for four characters, and a rest counts as one.
pub proof fn law_four_characters_are_a_token(s: Seq<char>)
    ensures
        s.len() <= 4 * tokens_of(s) < s.len() + 4,
        s.len() == 0 ==> tokens_of(s) == 0,
{
}

/// An item is a line that begins with a dash and a space, however far it is
/// indented.
pub proof fn law_items_begin_with_a_dash(text: Seq<char>)
    requires
        trim_start_of("- "@ + text) == "- "@ + text,
    ensures
        is_item("- "@ + text),
{
    assert(("- "@ + text).subrange(0, "- "@.len() as int) =~= "- "@);
}

/// The items among the lines are counted one by one.
pub proof fn law_items_are_counted(lines: Seq<Seq<char>>, line: Seq<char>)
    ensures
        items_before(lines, 0) == 0,
        is_item(line) ==> items_before(lines.push(line), lines.len() + 1) == items_before(
            lines,
            lines.len(),
        ) + 1,
        !is_item(line) ==> items_before(lines.push(line), lines.len() + 1) == items_before(
            lines,
            lines.len(),
        ),
{
    lemma_items_of_front(lines, line, lines.len());
    assert(lines.push(line)[lines.len() as int] == line);
}

proof fn lemma_items_of_front(lines: Seq<Seq<char>>, line: Seq<char>, n: nat)
    requires
        n <= lines.len(),
    ensures
        items_before(lines.push(line), n) == items_before(lines, n),
    decreases n,
{
    if n > 0 {
        lemma_items_of_front(lines, line, (n - 1) as nat);
        assert(lines.push(line)[n - 1] == lines[n - 1]);
    }
}

} // verus!
