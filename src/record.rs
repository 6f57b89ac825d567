use vstd::prelude::*;
use crate::ranking::names;
use crate::tag_data::{sat_add, tally_add, tally_wf, TagTable, TagData};

verus! {

/// serde_json's parse error, mapped to `RecordError::InvalidJson`.
#[verifier::external_type_specification]
#[verifier::external_body]
pub struct ExJsonError(serde_json::Error);

/// Why a line is not a usable question record.
#[derive(Clone, Copy, Debug, PartialEq, Eq, Structural)]
pub enum RecordError {
    /// The line is not JSON at all.
    InvalidJson,
    /// `texts` or `tags` is missing or not an array.
    MalformedRecord,
}

/// Whether serde_json parses `s` as one JSON value.
pub uninterp spec fn json_valid(s: Seq<char>) -> bool;

/// For a text serde_json parses, the array stored under `key` in it, each
/// item as its text when it is a JSON string; `None` when the value is not
/// an object or holds no array under `key`.
pub uninterp spec fn json_string_array(s: Seq<char>, key: Seq<char>) -> Option<Seq<Option<Seq<char>>>>;

/// `s` cut at every newline; the last piece is what follows the last one.
pub open spec fn split_nl(s: Seq<char>) -> Seq<Seq<char>>
    decreases s.len(),
{
    if s.len() == 0 {
        seq![Seq::empty()]
    } else if s.last() == '\n' {
        split_nl(s.drop_last()).push(Seq::empty())
    } else {
        let p = split_nl(s.drop_last());
        p.update(p.len() - 1, p.last().push(s.last()))
    }
}

/// A line that ended with a newline, without the `\r` of a `\r\n` ending.
pub open spec fn strip_cr(l: Seq<char>) -> Seq<char> {
    if l.len() > 0 && l.last() == '\r' {
        l.drop_last()
    } else {
        l
    }
}

/// The lines of `s`: split at `\n` or `\r\n`; a final line ending is
/// optional, so an empty last piece is no line.
pub open spec fn lines_of(s: Seq<char>) -> Seq<Seq<char>> {
    let p = split_nl(s);
    let ended = p.drop_last().map_values(|l: Seq<char>| strip_cr(l));
    if p.last().len() == 0 {
        ended
    } else {
        ended.push(p.last())
    }
}

/// Unicode `White_Space` characters.
pub open spec fn is_white(c: char) -> bool {
    ('\u{9}' <= c && c <= '\u{d}') || c == ' ' || c == '\u{85}' || c == '\u{a0}' || c == '\u{1680}'
        || ('\u{2000}' <= c && c <= '\u{200a}') || c == '\u{2028}' || c == '\u{2029}' || c
        == '\u{202f}' || c == '\u{205f}' || c == '\u{3000}'
}

/// Number of maximal runs of non-whitespace characters in `s`.
pub open spec fn word_count(s: Seq<char>) -> nat
    decreases s.len(),
{
    if s.len() == 0 {
        0
    } else {
        let starts = !is_white(s.last()) && (s.len() == 1 || is_white(s[s.len() - 2]));
        word_count(s.drop_last()) + if starts {
            1nat
        } else {
            0nat
        }
    }
}

/// Optional names as optional character sequences.
pub open spec fn opt_names(v: Seq<Option<String>>) -> Seq<Option<Seq<char>>> {
    v.map_values(|o: Option<String>| match o {
        Some(s) => Some(s@),
        None => None,
    })
}

/// The model of a looked-up array of optional texts.
pub open spec fn opt_array_view(a: Option<Vec<Option<String>>>) -> Option<Seq<Option<Seq<char>>>> {
    match a {
        Some(v) => Some(opt_names(v@)),
        None => None,
    }
}

/// Relies on serde_json::from_str (into a Value), Value::get,
/// Value::as_array and Value::as_str: parses `line` and returns the array
/// under `key`, each item as its text when it is a string.
#[verifier::external_body]
fn string_array_field(line: &str, key: &str) -> (r: Result<Option<Vec<Option<String>>>, serde_json::Error>)
    ensures
        r is Ok <==> json_valid(line@),
        r matches Ok(a) ==> opt_array_view(a) == json_string_array(line@, key@),
{
    let v: serde_json::Value = serde_json::from_str(line)?;
    Ok(v.get(key).and_then(serde_json::Value::as_array).map(|a| {
        a.iter().map(|x| x.as_str().map(String::from)).collect()
    }))
}

/// Relies on str::split_whitespace: it yields the non-empty runs of
/// non-`White_Space` characters.
#[verifier::external_body]
fn count_words(s: &str) -> (r: usize)
    ensures
        r as nat == word_count(s@),
{
    s.split_whitespace().count()
}

/// Relies on str::lines: it splits at `\n` and `\r\n`, with the final
/// line ending optional.
#[verifier::external_body]
fn split_lines(s: &str) -> (r: Vec<String>)
    ensures
        names(r@) == lines_of(s@),
{
    s.lines().map(String::from).collect()
}


/// Total words of the texts among `t` (items that are not texts count nothing).
pub open spec fn text_words(t: Seq<Option<Seq<char>>>) -> usize
    decreases t.len(),
{
    if t.len() == 0 {
        0
    } else {
        match t.last() {
            Some(s) => sat_add(text_words(t.drop_last()), word_count(s) as usize),
            None => text_words(t.drop_last()),
        }
    }
}

/// The distinct texts among `t`, in order of first occurrence.
pub open spec fn tag_set(t: Seq<Option<Seq<char>>>) -> Seq<Seq<char>>
    decreases t.len(),
{
    if t.len() == 0 {
        Seq::empty()
    } else {
        let p = tag_set(t.drop_last());
        match t.last() {
            Some(s) => if p.contains(s) {
                p
            } else {
                p.push(s)
            },
            None => p,
        }
    }
}

/// What one line contributes: its word count and its distinct tags.
#[derive(Clone, Debug)]
pub struct LineRecord {
    pub words: usize,
    pub tags: Vec<String>,
}

impl View for LineRecord {
    type V = (usize, Seq<Seq<char>>);

    open spec fn view(&self) -> (usize, Seq<Seq<char>>) {
        (self.words, names(self.tags@))
    }
}

/// The record of a line whose `texts` and `tags` arrays hold `texts` and
/// `tags` (`None` for an item that is not a string).
pub fn line_record(texts: &Vec<Option<String>>, tags: &Vec<Option<String>>) -> (r: LineRecord)
    ensures
        r@ == (text_words(opt_names(texts@)), tag_set(opt_names(tags@))),
{
    let ghost ts = opt_names(texts@);
    let mut words: usize = 0;
    let mut i: usize = 0;
    while i < texts.len()
        invariant
            ts == opt_names(texts@),
            i <= texts@.len(),
            words == text_words(ts.take(i as int)),
        decreases texts@.len() - i,
    {
        assert(ts.take(i + 1).drop_last() =~= ts.take(i as int));
        match &texts[i] {
            Some(s) => {
                let c = count_words(s.as_str());
                words = words.saturating_add(c);
            },
            None => {},
        }
        i += 1;
    }
    assert(ts.take(texts@.len() as int) =~= ts);
    let ghost gs = opt_names(tags@);
    let mut out: Vec<String> = Vec::new();
    let mut j: usize = 0;
    while j < tags.len()
        invariant
            gs == opt_names(tags@),
            j <= tags@.len(),
            names(out@) == tag_set(gs.take(j as int)),
        decreases tags@.len() - j,
    {
        assert(gs.take(j + 1).drop_last() =~= gs.take(j as int));
        match &tags[j] {
            Some(s) => {
                let mut k: usize = 0;
                let mut seen = false;
                while k < out.len()
                    invariant
                        k <= out@.len(),
                        seen <==> exists|m: int| 0 <= m < k && out@[m]@ == s@,
                    decreases out@.len() - k,
                {
                    if out[k] == *s {
                        seen = true;
                    }
                    k += 1;
                }
                proof {
                    if seen {
                        let m = choose|m: int| 0 <= m < k && out@[m]@ == s@;
                        assert(names(out@)[m] == s@);
                    }
                    if names(out@).contains(s@) {
                        let m = choose|m: int| 0 <= m < names(out@).len() && names(out@)[m] == s@;
                        assert(out@[m]@ == s@);
                    }
                }
                if !seen {
                    out.push(s.clone());
                    assert(names(out@) =~= tag_set(gs.take(j as int)).push(s@));
                }
            },
            None => {},
        }
        j += 1;
    }
    assert(gs.take(tags@.len() as int) =~= gs);
    LineRecord { words, tags: out }
}

/// The `texts` array of a line, as serde_json reads it.
pub open spec fn texts_of(l: Seq<char>) -> Option<Seq<Option<Seq<char>>>> {
    json_string_array(l, "texts"@)
}

/// The `tags` array of a line, as serde_json reads it.
pub open spec fn tags_of(l: Seq<char>) -> Option<Seq<Option<Seq<char>>>> {
    json_string_array(l, "tags"@)
}

/// Line `l` is a question record: JSON with `texts` and `tags` arrays.
pub open spec fn record_ok(l: Seq<char>) -> bool {
    json_valid(l) && texts_of(l) is Some && tags_of(l) is Some
}

/// The error of a line that is not a question record.
pub open spec fn record_error(l: Seq<char>) -> RecordError {
    if !json_valid(l) {
        RecordError::InvalidJson
    } else {
        RecordError::MalformedRecord
    }
}

/// What a question record contributes: its words and its distinct tags.
pub open spec fn line_view(l: Seq<char>) -> (usize, Seq<Seq<char>>) {
    (text_words(texts_of(l)->Some_0), tag_set(tags_of(l)->Some_0))
}

/// Parses one line into its record. The line is `InvalidJson` exactly when
/// it is not JSON, `MalformedRecord` when `texts` or `tags` is not an
/// array, and otherwise gives the words of its texts and its distinct tags.
pub fn parse_record(line: &str) -> (r: Result<LineRecord, RecordError>)
    ensures
        r is Ok <==> record_ok(line@),
        r matches Ok(rec) ==> rec@ == line_view(line@),
        r matches Err(e) ==> e == record_error(line@),
{
    let texts = match string_array_field(line, "texts") {
        Ok(Some(a)) => a,
        Ok(None) => return Err(RecordError::MalformedRecord),
        Err(_) => return Err(RecordError::InvalidJson),
    };
    let tags = match string_array_field(line, "tags") {
        Ok(Some(a)) => a,
        Ok(None) => return Err(RecordError::MalformedRecord),
        Err(_) => return Err(RecordError::InvalidJson),
    };
    let rec = line_record(&texts, &tags);
    Ok(rec)
}

/// Table `t` after one question with `w` words carrying each of `tags`.
pub open spec fn add_line(t: Seq<(Seq<char>, TagData)>, tags: Seq<Seq<char>>, w: usize) -> Seq<
    (Seq<char>, TagData),
>
    decreases tags.len(),
{
    if tags.len() == 0 {
        t
    } else {
        tally_add(add_line(t, tags.drop_last(), w), tags.last(), 1, w)
    }
}

/// Questions, words and per-tag counts of a file whose lines give `recs`.
pub open spec fn tally_lines(recs: Seq<(usize, Seq<Seq<char>>)>) -> (usize, usize, Seq<
    (Seq<char>, TagData),
>)
    decreases recs.len(),
{
    if recs.len() == 0 {
        (0, 0, Seq::empty())
    } else {
        let (q, w, t) = tally_lines(recs.drop_last());
        let r = recs.last();
        (sat_add(q, 1), sat_add(w, r.0), add_line(t, r.1, r.0))
    }
}

/// The models of a list of records.
pub open spec fn record_views(v: Seq<LineRecord>) -> Seq<(usize, Seq<Seq<char>>)> {
    v.map_values(|r: LineRecord| r@)
}

/// The file totals of `t` (a site's questions, words and tag table).
pub open spec fn file_view(t: (usize, usize, TagTable)) -> (usize, usize, Seq<(Seq<char>, TagData)>) {
    (t.0, t.1, t.2@)
}

/// Folds the records of one file's lines: one question per line, the line's
/// words, and for each tag of a line one question and the line's words.
pub fn fold_records(records: &Vec<LineRecord>) -> (r: (usize, usize, TagTable))
    ensures
        file_view(r) == tally_lines(record_views(records@)),
        r.2.wf(),
{
    let ghost rs = record_views(records@);
    let mut questions: usize = 0;
    let mut words: usize = 0;
    let mut table = TagTable::new();
    let mut i: usize = 0;
    while i < records.len()
        invariant
            rs == record_views(records@),
            i <= records@.len(),
            table.wf(),
            (questions, words, table@) == tally_lines(rs.take(i as int)),
        decreases records@.len() - i,
    {
        assert(rs.take(i + 1).drop_last() =~= rs.take(i as int));
        let rec = &records[i];
        let ghost t0 = table@;
        let mut j: usize = 0;
        while j < rec.tags.len()
            invariant
                i < records@.len(),
                rec == records@[i as int],
                table.wf(),
                j <= rec.tags@.len(),
                table@ == add_line(t0, names(rec.tags@).take(j as int), rec.words),
            decreases rec.tags@.len() - j,
        {
            assert(names(rec.tags@).take(j + 1).drop_last() =~= names(rec.tags@).take(j as int));
            table.add(&rec.tags[j], 1, rec.words);
            j += 1;
        }
        assert(names(rec.tags@).take(rec.tags@.len() as int) =~= names(rec.tags@));
        questions = questions.saturating_add(1);
        words = words.saturating_add(rec.words);
        i += 1;
    }
    assert(rs.take(records@.len() as int) =~= rs);
    (questions, words, table)
}

/// Number of lines of `l` left once the empty lines at its end are dropped.
pub open spec fn kept_lines(l: Seq<Seq<char>>) -> nat
    decreases l.len(),
{
    if l.len() > 0 && l.last().len() == 0 {
        kept_lines(l.drop_last())
    } else {
        l.len()
    }
}

proof fn lemma_kept_lines(l: Seq<Seq<char>>)
    ensures
        kept_lines(l) <= l.len(),
    decreases l.len(),
{
    if l.len() > 0 && l.last().len() == 0 {
        lemma_kept_lines(l.drop_last());
    }
}

/// The lines of `content` that count: all but the empty ones at its end.
pub open spec fn kept(content: Seq<char>) -> Seq<Seq<char>> {
    lines_of(content).take(kept_lines(lines_of(content)) as int)
}

/// Every kept line of `content` is a question record.
pub open spec fn file_ok(content: Seq<char>) -> bool {
    forall|i: int| 0 <= i < kept(content).len() ==> record_ok(#[trigger] kept(content)[i])
}

/// `e` is the error of the first kept line of `content` that is not a
/// question record.
pub open spec fn file_error(content: Seq<char>, e: RecordError) -> bool {
    exists|i: int|
        0 <= i < kept(content).len() && !record_ok(#[trigger] kept(content)[i]) && e == record_error(
            kept(content)[i],
        ) && forall|j: int| 0 <= j < i ==> record_ok(#[trigger] kept(content)[j])
}

/// The records of the kept lines of `content`.
pub open spec fn kept_views(content: Seq<char>) -> Seq<(usize, Seq<Seq<char>>)> {
    kept(content).map_values(|l: Seq<char>| line_view(l))
}

/// Processes the text of one site file: empty lines at its end are ignored,
/// every other line must be a question record. It fails, with the error of
/// the first line that is not, exactly when some line is not; otherwise the
/// totals are the fold of the lines' records.
pub fn process_json_file(content: &str) -> (r: Result<(usize, usize, TagTable), RecordError>)
    ensures
        r is Ok <==> file_ok(content@),
        r matches Ok(t) ==> t.2.wf() && file_view(t) == tally_lines(kept_views(content@)),
        r matches Err(e) ==> file_error(content@, e),
{
    let lines = split_lines(content);
    let ghost ls = lines_of(content@);
    let mut end: usize = lines.len();
    proof {
        lemma_kept_lines(ls);
        assert(ls.take(end as int) =~= ls);
    }
    while end > 0 && lines[end - 1].as_str().unicode_len() == 0
        invariant
            ls == names(lines@),
            ls == lines_of(content@),
            kept_lines(ls) <= end <= ls.len(),
            kept_lines(ls) == kept_lines(ls.take(end as int)),
        decreases end,
    {
        assert(ls.take(end as int).drop_last() =~= ls.take(end - 1));
        proof {
            lemma_kept_lines(ls.take(end - 1));
        }
        end -= 1;
    }
    let ghost ks = kept(content@);
    assert(ks.len() == end);
    let mut records: Vec<LineRecord> = Vec::new();
    let mut i: usize = 0;
    while i < end
        invariant
            ls == names(lines@),
            ls == lines_of(content@),
            ks == kept(content@),
            end == ks.len(),
            end <= lines@.len(),
            i <= end,
            forall|k: int| 0 <= k < end ==> ks[k] == ls[k],
            record_views(records@) == ks.take(i as int).map_values(|l: Seq<char>| line_view(l)),
            forall|k: int| 0 <= k < i ==> record_ok(#[trigger] ks[k]),
        decreases end - i,
    {
        assert(lines@[i as int]@ == ks[i as int]);
        match parse_record(lines[i].as_str()) {
            Ok(rec) => {
                let ghost old_views = record_views(records@);
                assert(rec@ == line_view(ks[i as int]));
                records.push(rec);
                assert(record_views(records@) =~= old_views.push(rec@));
                assert(ks.take(i + 1) =~= ks.take(i as int).push(ks[i as int]));
                assert(record_views(records@) =~= ks.take(i + 1).map_values(
                    |l: Seq<char>| line_view(l),
                ));
            },
            Err(e) => {
                assert(!record_ok(ks[i as int]));
                assert(file_error(content@, e));
                return Err(e);
            },
        }
        i += 1;
    }
    assert(ks.take(end as int) =~= ks);
    let t = fold_records(&records);
    Ok(t)
}

} // verus!
