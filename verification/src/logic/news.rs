//! Decisions of the news commands: how a list is printed, how news ids are
//! read, when details are fetched one by one or in a batch, and how batch
//! results are put back in order.
use vstd::prelude::*;

use crate::commands::news::HotArgs;
use crate::dates::{last_days, last_days_range, CalendarDate};
use crate::mcp::or_else;
use crate::models::news::{opt_view, NewsDetail};
use crate::text::{decimal, is_whitespace, is_ws, parse_u64, parsed_u64, push_decimal, push_char};

verus! {

// ---------------------------------------------------------------------------
// Printing a list
// ---------------------------------------------------------------------------

/// How a news list is printed.
#[derive(Debug, Clone, Copy, PartialEq, Eq, Structural)]
pub enum ListOutput {
    /// The whole list as JSON, pages filled in.
    Json,
    /// One id per line.
    Ids,
    /// One numbered title per line.
    Titles,
    /// The full rendering of each item.
    Full,
}

/// The output form: JSON over ids over titles over the full rendering.
pub fn list_output(json: bool, title_only: bool, ids_only: bool) -> (r: ListOutput)
    ensures
        json ==> r == ListOutput::Json,
        !json && ids_only ==> r == ListOutput::Ids,
        !json && !ids_only && title_only ==> r == ListOutput::Titles,
        !json && !ids_only && !title_only ==> r == ListOutput::Full,
{
    if json {
        ListOutput::Json
    } else if ids_only {
        ListOutput::Ids
    } else if title_only {
        ListOutput::Titles
    } else {
        ListOutput::Full
    }
}

// ---------------------------------------------------------------------------
// Reading news ids
// ---------------------------------------------------------------------------

/// The first word of `s`: the characters before the first whitespace.
pub open spec fn leading_word(s: Seq<char>) -> Seq<char>
    decreases s.len(),
{
    if s.len() == 0 || is_ws(s[0]) {
        Seq::empty()
    } else {
        seq![s[0]] + leading_word(s.drop_first())
    }
}

pub proof fn lemma_leading_word_len(s: Seq<char>)
    ensures
        leading_word(s).len() <= s.len(),
        s.len() > 0 && !is_ws(s[0]) ==> leading_word(s).len() >= 1,
        leading_word(s) == s.take(leading_word(s).len() as int),
    decreases s.len(),
{
    if s.len() > 0 && !is_ws(s[0]) {
        lemma_leading_word_len(s.drop_first());
        assert(seq![s[0]] + s.drop_first().take(leading_word(s.drop_first()).len() as int) =~= s.take(
            leading_word(s).len() as int,
        ));
    } else {
        assert(s.take(0) =~= Seq::<char>::empty());
    }
}

/// The whitespace-separated words of `s` (`str::split_whitespace`).
pub open spec fn words(s: Seq<char>) -> Seq<Seq<char>>
    decreases s.len(),
{
    if s.len() == 0 {
        Seq::empty()
    } else if is_ws(s[0]) {
        words(s.drop_first())
    } else {
        proof {
            lemma_leading_word_len(s);
        }
        seq![leading_word(s)] + words(s.skip(leading_word(s).len() as int))
    }
}

proof fn lemma_leading_word_of_word(s: Seq<char>)
    requires
        forall|i: int| 0 <= i < s.len() ==> !is_ws(#[trigger] s[i]),
    ensures
        leading_word(s) == s,
    decreases s.len(),
{
    if s.len() > 0 {
        assert forall|i: int| 0 <= i < s.drop_first().len() implies !is_ws(
            #[trigger] s.drop_first()[i],
        ) by {
            assert(s.drop_first()[i] == s[i + 1]);
        }
        lemma_leading_word_of_word(s.drop_first());
        assert(seq![s[0]] + s.drop_first() =~= s);
    } else {
        assert(s =~= Seq::<char>::empty());
    }
}

proof fn lemma_leading_word_stops(a: Seq<char>, x: Seq<char>)
    requires
        x.len() > 0,
        is_ws(x[0]),
    ensures
        leading_word(a + x) == leading_word(a),
    decreases a.len(),
{
    if a.len() == 0 {
        assert(a + x =~= x);
    } else {
        assert((a + x)[0] == a[0]);
        assert((a + x).drop_first() =~= a.drop_first() + x);
        lemma_leading_word_stops(a.drop_first(), x);
    }
}

/// A non-empty text without whitespace is one word.
pub proof fn lemma_words_of_word(s: Seq<char>)
    requires
        s.len() > 0,
        forall|i: int| 0 <= i < s.len() ==> !is_ws(#[trigger] s[i]),
    ensures
        words(s) == seq![s],
{
    lemma_leading_word_of_word(s);
    assert(!is_ws(s[0]));
    assert(s.skip(s.len() as int) =~= Seq::<char>::empty());
    assert(words(Seq::<char>::empty()) == Seq::<Seq<char>>::empty());
    assert(seq![s] + Seq::<Seq<char>>::empty() =~= seq![s]);
}

/// A whitespace character splits the words: those of the text before it,
/// then those of the text after it.
pub proof fn lemma_words_split(a: Seq<char>, c: char, b: Seq<char>)
    requires
        is_ws(c),
    ensures
        words(a + seq![c] + b) == words(a) + words(b),
    decreases a.len(),
{
    let s = a + seq![c] + b;
    if a.len() == 0 {
        assert(s[0] == c);
        assert(s.drop_first() =~= b);
        assert(words(a) == Seq::<Seq<char>>::empty());
        assert(words(a) + words(b) =~= words(b));
    } else if is_ws(a[0]) {
        assert(s[0] == a[0]);
        assert(s.drop_first() =~= a.drop_first() + seq![c] + b);
        lemma_words_split(a.drop_first(), c, b);
    } else {
        assert(s[0] == a[0]);
        let x = seq![c] + b;
        assert(s =~= a + x);
        lemma_leading_word_stops(a, x);
        let w = leading_word(a);
        lemma_leading_word_len(a);
        let a2 = a.skip(w.len() as int);
        assert(s.skip(w.len() as int) =~= a2 + seq![c] + b);
        lemma_words_split(a2, c, b);
        assert(words(a) == seq![w] + words(a2));
        assert(words(s) == seq![w] + words(a2 + seq![c] + b));
        assert(seq![w] + (words(a2) + words(b)) =~= (seq![w] + words(a2)) + words(b));
    }
}

/// What reading ids from words gives.
pub enum IdsRead {
    /// Every word is a positive number.
    Ids(Seq<u64>),
    /// This word is not a number.
    Invalid(Seq<char>),
    /// A word is the number 0.
    Zero,
}

/// Reads the words as ids, stopping at the first word that is not a
/// positive number.
pub open spec fn ids_read(ws: Seq<Seq<char>>) -> IdsRead
    decreases ws.len(),
{
    if ws.len() == 0 {
        IdsRead::Ids(Seq::empty())
    } else {
        match parsed_u64(ws[0]) {
            None => IdsRead::Invalid(ws[0]),
            Some(n) => if n == 0 {
                IdsRead::Zero
            } else {
                match ids_read(ws.drop_first()) {
                    IdsRead::Ids(rest) => IdsRead::Ids(seq![n] + rest),
                    other => other,
                }
            },
        }
    }
}

/// A word that is not a positive news id.
#[derive(Debug)]
pub enum IdInputError {
    /// The word is not a number.
    Invalid(String),
    /// The word is the number 0.
    Zero,
}

impl IdInputError {
    /// `无效的 ID '<word>'，需要正整数`, with `0` for a zero.
    pub fn message(&self) -> (r: String)
        ensures
            self matches IdInputError::Invalid(w) ==> r@ == "无效的 ID '"@ + w@ + "'，需要正整数"@,
            self matches IdInputError::Zero ==> r@ == "无效的 ID '0'，需要正整数"@,
    {
        match self {
            IdInputError::Invalid(w) => {
                let mut r = String::from_str("无效的 ID '");
                r.append(w.as_str());
                r.append("'，需要正整数");
                r
            },
            IdInputError::Zero => String::from_str("无效的 ID '0'，需要正整数"),
        }
    }
}

/// Reads whitespace-separated positive news ids from `input`.
pub fn parse_show_ids(input: &str) -> (r: Result<Vec<u64>, IdInputError>)
    ensures
        match ids_read(words(input@)) {
            IdsRead::Ids(v) => r matches Ok(ids) && ids@ == v,
            IdsRead::Invalid(w) => r matches Err(IdInputError::Invalid(t)) && t@ == w,
            IdsRead::Zero => r matches Err(IdInputError::Zero),
        },
{
    let chars = crate::text::chars_of(input);
    let n = chars.len();
    let mut out: Vec<u64> = Vec::new();
    let mut i: usize = 0;
    assert(chars@.skip(0) =~= chars@);
    while i < n
        invariant
            i <= n == chars.len(),
            chars@ == input@,
            ids_read(words(input@)) == (match ids_read(words(chars@.skip(i as int))) {
                IdsRead::Ids(rest) => IdsRead::Ids(out@ + rest),
                other => other,
            }),
        decreases n - i,
    {
        let ghost rest = chars@.skip(i as int);
        if is_whitespace(chars[i]) {
            assert(rest.drop_first() =~= chars@.skip(i + 1));
            i = i + 1;
        } else {
            let mut j = i;
            let mut word = String::new();
            while j < n && !is_whitespace(chars[j])
                invariant
                    i <= j <= n == chars.len(),
                    word@ == chars@.subrange(i as int, j as int),
                    leading_word(rest) == word@ + leading_word(chars@.skip(j as int)),
                    rest == chars@.skip(i as int),
                decreases n - j,
            {
                assert(chars@.skip(j as int).drop_first() =~= chars@.skip(j + 1));
                assert(chars@.subrange(i as int, j + 1) =~= chars@.subrange(i as int, j as int).push(
                    chars@[j as int],
                ));
                push_char(&mut word, chars[j]);
                assert(word@ + leading_word(chars@.skip(j + 1)) =~= chars@.subrange(i as int, j as int)
                    + (seq![chars@[j as int]] + leading_word(chars@.skip(j as int).drop_first())));
                j = j + 1;
            }
            proof {
                assert(leading_word(chars@.skip(j as int)) =~= Seq::<char>::empty());
                assert(word@ + Seq::<char>::empty() =~= word@);
                lemma_leading_word_len(rest);
                assert(rest.skip(word@.len() as int) =~= chars@.skip(j as int));
                assert(words(rest) == seq![word@] + words(chars@.skip(j as int)));
                assert((seq![word@] + words(chars@.skip(j as int))).drop_first() =~= words(
                    chars@.skip(j as int),
                ));
            }
            match parse_u64(word.as_str()) {
                None => {
                    return Err(IdInputError::Invalid(word));
                },
                Some(v) => {
                    if v == 0 {
                        return Err(IdInputError::Zero);
                    }
                    proof {
                        let tail = words(chars@.skip(j as int));
                        match ids_read(tail) {
                            IdsRead::Ids(more) => {
                                assert(out@.push(v) + more =~= out@ + (seq![v] + more));
                            },
                            _ => {},
                        }
                    }
                    out.push(v);
                    i = j;
                }
            }
        }
    }
    assert(chars@.skip(n as int) =~= Seq::<char>::empty());
    assert(out@ + Seq::<u64>::empty() =~= out@);
    Ok(out)
}

// ---------------------------------------------------------------------------
// One detail or a batch
// ---------------------------------------------------------------------------

/// How `news show` proceeds.
#[derive(Debug, Clone, Copy, PartialEq, Eq, Structural)]
pub enum ShowMode {
    /// One id given on the command line: print that news.
    Single(u64),
    /// Several ids, or ids from standard input: fetch them all, as JSON.
    Batch,
}

/// No news id was given.
#[derive(Debug, Clone, Copy, PartialEq, Eq, Structural)]
pub struct NoIds;

impl NoIds {
    /// The message for a missing id.
    pub fn message(&self) -> (r: String)
        ensures
            r@ == "未提供新闻 ID（位置参数为空且 --stdin 没读到任何 ID）"@,
    {
        String::from_str("未提供新闻 ID（位置参数为空且 --stdin 没读到任何 ID）")
    }
}

/// No ids is an error; one id from the command line is shown by itself;
/// anything else is a batch.
pub fn show_mode(ids: &Vec<u64>, from_stdin: bool) -> (r: Result<ShowMode, NoIds>)
    ensures
        ids.len() == 0 ==> r == Err::<ShowMode, NoIds>(NoIds),
        ids.len() == 1 && !from_stdin ==> r == Ok::<ShowMode, NoIds>(ShowMode::Single(ids[0])),
        ids.len() > 0 && !(ids.len() == 1 && !from_stdin) ==> r == Ok::<ShowMode, NoIds>(
            ShowMode::Batch,
        ),
{
    if ids.len() == 0 {
        Err(NoIds)
    } else if ids.len() == 1 && !from_stdin {
        Ok(ShowMode::Single(ids[0]))
    } else {
        Ok(ShowMode::Batch)
    }
}

// ---------------------------------------------------------------------------
// Batch results
// ---------------------------------------------------------------------------

/// One entry of a batch: the detail, or why it could not be had.
#[derive(Debug)]
pub enum DetailResult {
    /// The detail was fetched.
    Loaded { id: u64, detail: NewsDetail },
    /// The fetch failed with this message.
    Failed { id: u64, error: String },
}

/// What one fetch of a batch gave, with the position of its id in the request.
#[derive(Debug)]
pub struct TaggedDetail {
    pub index: usize,
    pub id: u64,
    pub outcome: Result<NewsDetail, String>,
}

/// Where `x` goes among entries ordered by position: after every entry at
/// the same or an earlier position.
pub open spec fn tagged_pos(t: Seq<TaggedDetail>, x: TaggedDetail) -> int
    decreases t.len(),
{
    if t.len() == 0 {
        0
    } else if t[0].index > x.index {
        0
    } else {
        1 + tagged_pos(t.drop_first(), x)
    }
}

/// Entries ordered by position, entries at the same position kept in the
/// order they came (a stable sort by `index`).
pub open spec fn by_position(s: Seq<TaggedDetail>) -> Seq<TaggedDetail>
    decreases s.len(),
{
    if s.len() == 0 {
        s
    } else {
        let t = by_position(s.drop_last());
        t.insert(tagged_pos(t, s.last()), s.last())
    }
}

/// The batch entry for a fetch.
pub open spec fn entry_of(t: TaggedDetail) -> DetailResult {
    match t.outcome {
        Ok(d) => DetailResult::Loaded { id: t.id, detail: d },
        Err(e) => DetailResult::Failed { id: t.id, error: e },
    }
}

/// Every fetch of a batch is handed out as it came, under its id: a fetched
/// detail unchanged, a failure with its message.
pub proof fn lemma_batch_entries_keep_outcomes(s: Seq<TaggedDetail>)
    ensures
        by_position(s).map_values(|t: TaggedDetail| entry_of(t)).len() == s.len(),
        forall|i: int|
            #![trigger s[i]]
            0 <= i < s.len() ==> exists|j: int|
                #![trigger by_position(s)[j]]
                0 <= j < s.len() && by_position(s)[j] == s[i] && match s[i].outcome {
                    Ok(d) => by_position(s).map_values(|t: TaggedDetail| entry_of(t))[j]
                        == DetailResult::Loaded { id: s[i].id, detail: d },
                    Err(e) => by_position(s).map_values(|t: TaggedDetail| entry_of(t))[j]
                        == DetailResult::Failed { id: s[i].id, error: e },
                },
{
    broadcast use vstd::seq_lib::group_to_multiset_ensures;

    lemma_by_position_ordered(s);
    let b = by_position(s);
    let r = b.map_values(|t: TaggedDetail| entry_of(t));
    assert(b.len() == s.len()) by {
        assert(b.to_multiset().len() == s.to_multiset().len());
    }
    assert forall|i: int| #![trigger s[i]] 0 <= i < s.len() implies exists|j: int|
        #![trigger b[j]]
        0 <= j < s.len() && b[j] == s[i] && match s[i].outcome {
            Ok(d) => r[j] == DetailResult::Loaded { id: s[i].id, detail: d },
            Err(e) => r[j] == DetailResult::Failed { id: s[i].id, error: e },
        } by {
        assert(s.to_multiset().count(s[i]) > 0);
        assert(b.to_multiset().count(s[i]) > 0);
        assert(b.contains(s[i]));
        let j = choose|j: int| 0 <= j < b.len() && b[j] == s[i];
        assert(r[j] == entry_of(b[j]));
    }
}

/// Entries are in order of position./// Entries are in order of position.
pub open spec fn positions_ordered(s: Seq<TaggedDetail>) -> bool {
    forall|i: int, j: int| 0 <= i < j < s.len() ==> #[trigger] s[i].index <= #[trigger] s[j].index
}

proof fn lemma_tagged_pos_bounds(t: Seq<TaggedDetail>, x: TaggedDetail)
    ensures
        0 <= tagged_pos(t, x) <= t.len(),
        forall|m: int| 0 <= m < tagged_pos(t, x) ==> #[trigger] t[m].index <= x.index,
        tagged_pos(t, x) < t.len() ==> t[tagged_pos(t, x)].index > x.index,
    decreases t.len(),
{
    if t.len() > 0 && t[0].index <= x.index {
        lemma_tagged_pos_bounds(t.drop_first(), x);
        assert forall|m: int| 0 <= m < tagged_pos(t, x) implies #[trigger] t[m].index <= x.index by {
            if m > 0 {
                assert(t[m] == t.drop_first()[m - 1]);
            }
        }
    }
}

/// Results come out in the order of the request.
pub proof fn lemma_by_position_ordered(s: Seq<TaggedDetail>)
    ensures
        positions_ordered(by_position(s)),
        by_position(s).to_multiset() == s.to_multiset(),
    decreases s.len(),
{
    broadcast use vstd::seq_lib::group_to_multiset_ensures;

    if s.len() > 0 {
        lemma_by_position_ordered(s.drop_last());
        let t = by_position(s.drop_last());
        let x = s.last();
        lemma_tagged_pos_bounds(t, x);
        let k = tagged_pos(t, x);
        let r = t.insert(k, x);
        assert forall|i: int, j: int| 0 <= i < j < r.len() implies #[trigger] r[i].index
            <= #[trigger] r[j].index by {
            if i < k && j < k {
                assert(r[i] == t[i] && r[j] == t[j]);
            } else if i < k && j == k {
                assert(r[i] == t[i]);
            } else if i < k {
                assert(r[i] == t[i] && r[j] == t[j - 1]);
            } else if i == k {
                assert(r[j] == t[j - 1]);
                if j - 1 > k {
                    assert(t[k].index <= t[j - 1].index);
                }
            } else {
                assert(r[i] == t[i - 1] && r[j] == t[j - 1]);
            }
        }
        assert(s.drop_last().push(x) =~= s);
    }
}

/// Puts the fetches back in the order of the request and makes each an entry.
pub fn collect_detail_results(tagged: Vec<TaggedDetail>) -> (r: Vec<DetailResult>)
    ensures
        r@ == by_position(tagged@).map_values(|t: TaggedDetail| entry_of(t)),
{
    let ghost orig = tagged@;
    let mut sorted: Vec<TaggedDetail> = Vec::new();
    for item in it: tagged.into_iter()
        invariant
            it.seq() == orig,
            sorted@ == by_position(orig.take(it.index() as int)),
    {
        let ghost i = it.index() as int;
        let ghost t = sorted@;
        assert(orig.take(i + 1).drop_last() =~= orig.take(i));
        assert(orig.take(i + 1).last() == item);
        let mut j: usize = 0;
        assert(t.skip(0) =~= t);
        while j < sorted.len() && sorted[j].index <= item.index
            invariant
                j <= sorted.len(),
                t == sorted@,
                tagged_pos(t, item) == j + tagged_pos(t.skip(j as int), item),
            decreases sorted.len() - j,
        {
            assert(t.skip(j as int).drop_first() =~= t.skip(j + 1));
            assert(t.skip(j as int)[0] == t[j as int]);
            j = j + 1;
        }
        proof {
            if j < sorted.len() {
                assert(t.skip(j as int)[0] == t[j as int]);
            }
        }
        sorted.insert(j, item);
    }
    assert(orig.take(orig.len() as int) =~= orig);
    let ghost ordered = sorted@;
    let mut out: Vec<DetailResult> = Vec::new();
    for t in it: sorted.into_iter()
        invariant
            it.seq() == ordered,
            out@ == ordered.take(it.index() as int).map_values(|t: TaggedDetail| entry_of(t)),
    {
        let ghost i = it.index() as int;
        assert(ordered.take(i + 1) =~= ordered.take(i).push(t));
        let TaggedDetail { index, id, outcome } = t;
        let entry = match outcome {
            Ok(detail) => DetailResult::Loaded { id, detail },
            Err(error) => DetailResult::Failed { id, error },
        };
        out.push(entry);
        assert(out@ =~= ordered.take(i + 1).map_values(|t: TaggedDetail| entry_of(t)));
    }
    assert(ordered.take(ordered.len() as int) =~= ordered);
    out
}

/// Every fetch of a batch failed.
#[derive(Debug, Clone, Copy, PartialEq, Eq, Structural)]
pub struct BatchFailed {
    pub count: usize,
}

impl BatchFailed {
    /// `批量获取失败：<count> 条全部失败`.
    pub fn message(&self) -> (r: String)
        ensures
            r@ == "批量获取失败："@ + decimal(self.count as nat) + " 条全部失败"@,
    {
        let mut r = String::from_str("批量获取失败：");
        push_decimal(&mut r, self.count as u64);
        r.append(" 条全部失败");
        r
    }
}

/// A batch fails when none of its entries holds a detail.
pub fn batch_outcome(results: &Vec<DetailResult>) -> (r: Result<(), BatchFailed>)
    ensures
        (exists|i: int| 0 <= i < results.len() && results@[i] is Loaded) ==> r == Ok::<(), BatchFailed>(
            (),
        ),
        !(exists|i: int| 0 <= i < results.len() && results@[i] is Loaded) ==> r == Err::<
            (),
            BatchFailed,
        >(BatchFailed { count: results.len() }),
{
    let mut i: usize = 0;
    while i < results.len()
        invariant
            i <= results.len(),
            forall|j: int| 0 <= j < i ==> !(results@[j] is Loaded),
        decreases results.len() - i,
    {
        if let DetailResult::Loaded { .. } = &results[i] {
            assert(results@[i as int] is Loaded);
            return Ok(());
        }
        i = i + 1;
    }
    Err(BatchFailed { count: results.len() })
}


// ---------------------------------------------------------------------------
// Hot news dates
// ---------------------------------------------------------------------------

/// With no date given, the range becomes the last `last_days` days (7 by
/// default) ending `today`; given dates are kept. `None` when that range
/// cannot be formed (a day before `chrono`'s range).
pub fn fill_hot_dates(args: HotArgs, today: CalendarDate) -> (r: Option<HotArgs>)
    ensures
        args.start_date is None && args.end_date is None ==> match last_days_range(
            today,
            or_else(args.last_days, 7) as int,
        ) {
            Some((start, end)) => r matches Some(a) && opt_view(a.start_date) == Some(start)
                && opt_view(a.end_date) == Some(end) && a.last_days == args.last_days
                && a.page_index == args.page_index && a.page_size == args.page_size
                && a.title_only == args.title_only && a.ids_only == args.ids_only,
            None => r is None,
        },
        !(args.start_date is None && args.end_date is None) ==> r == Some(args),
{
    if args.start_date.is_none() && args.end_date.is_none() {
        let days = args.last_days.unwrap_or(7);
        match last_days(today, days) {
            Some((start, end)) => Some(
                HotArgs { start_date: Some(start), end_date: Some(end), ..args },
            ),
            None => None,
        }
    } else {
        Some(args)
    }
}

} // verus!
