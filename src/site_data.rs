use vstd::prelude::*;
use crate::ranking::{all_positive, is_top_ranking, names, top_ten};
use crate::record::{file_error, file_ok, kept_views, process_json_file, tally_lines, RecordError};
use crate::tag_data::{find_key, has_key, key_index, named_view, unique_keys, TagData, TagTable};

verus! {

/// Statistics of one processed site file.
#[derive(Clone, Debug)]
pub struct SiteData {
    pub questions: usize,
    pub words: usize,
    pub tags: TagTable,
    /// The site's chattiest tags, chattiest first; fixed at construction.
    pub chatty_tags: Vec<String>,
}

impl SiteData {
    /// The tag table is well formed and the chatty tags rank it.
    pub open spec fn wf(&self) -> bool {
        &&& self.tags.wf()
        &&& exists|idx: Seq<int>| #[trigger] is_top_ranking(self.tags@, names(self.chatty_tags@), idx)
    }

    /// A site with these totals; its chatty tags are ranked from `tags`.
    pub fn new(questions: usize, words: usize, tags: TagTable) -> (r: SiteData)
        requires
            tags.wf(),
        ensures
            r.questions == questions,
            r.words == words,
            r.tags == tags,
            r.wf(),
    {
        let chatty_tags = get_tag_top_ten(&tags);
        let r = SiteData { questions, words, tags, chatty_tags };
        assert(r.tags@ == tags@);
        assert(names(r.chatty_tags@) == names(chatty_tags@));
        r
    }
}

/// The keys of the (up to) ten tags of `data` with the highest
/// words-per-question ratio, highest first.
pub fn get_tag_top_ten(data: &TagTable) -> (r: Vec<String>)
    requires
        data.wf(),
    ensures
        exists|idx: Seq<int>| #[trigger] is_top_ranking(data@, names(r@), idx),
{
    top_ten(&data.entries)
}

/// Processes the text of one site file into its statistics: it succeeds
/// exactly when every kept line is a question record, and then holds the
/// file's totals with its chatty tags ranked from them.
pub fn process_site(content: &str) -> (r: Result<SiteData, RecordError>)
    ensures
        r is Ok <==> file_ok(content@),
        r matches Ok(site) ==> site.wf() && (site.questions, site.words, site.tags@) == tally_lines(
            kept_views(content@),
        ),
        r matches Err(e) ==> file_error(content@, e),
{
    match process_json_file(content) {
        Ok(t) => Ok(SiteData::new(t.0, t.1, t.2)),
        Err(e) => Err(e),
    }
}

/// Each site with at least one question, as its name with its totals.
pub open spec fn site_totals(s: Seq<(Seq<char>, SiteData)>) -> Seq<(Seq<char>, TagData)>
    decreases s.len(),
{
    if s.len() == 0 {
        Seq::empty()
    } else {
        let p = site_totals(s.drop_last());
        let e = s.last();
        if e.1.questions > 0 {
            p.push((e.0, TagData { questions: e.1.questions, words: e.1.words }))
        } else {
            p
        }
    }
}

/// The names of the (up to) ten sites with the highest words-per-question
/// ratio, highest first. Sites without questions have no ratio and are not
/// ranked.
pub fn get_site_top_ten(data: &Vec<(String, SiteData)>) -> (r: Vec<String>)
    ensures
        exists|idx: Seq<int>| #[trigger] is_top_ranking(site_totals(named_view(data@)), names(r@), idx),
{
    let ghost s = named_view(data@);
    let mut totals: Vec<(String, TagData)> = Vec::new();
    let mut i: usize = 0;
    while i < data.len()
        invariant
            s == named_view(data@),
            i <= data@.len(),
            named_view(totals@) == site_totals(s.take(i as int)),
            all_positive(named_view(totals@)),
        decreases data@.len() - i,
    {
        assert(s.take(i + 1).drop_last() =~= s.take(i as int));
        let e = &data[i];
        if e.1.questions > 0 {
            totals.push((e.0.clone(), TagData { questions: e.1.questions, words: e.1.words }));
            assert(named_view(totals@) =~= site_totals(s.take(i + 1)));
        }
        i += 1;
    }
    assert(s.take(data@.len() as int) =~= s);
    top_ten(&totals)
}

/// Table `s` with `v` stored under `k`, replacing what `k` held before.
pub open spec fn table_put<V>(s: Seq<(Seq<char>, V)>, k: Seq<char>, v: V) -> Seq<(Seq<char>, V)> {
    if has_key(s, k) {
        s.update(key_index(s, k), (k, v))
    } else {
        s.push((k, v))
    }
}

/// A mapping from site file name to its statistics, in order of insertion.
#[derive(Clone, Debug)]
pub struct SiteTable {
    pub entries: Vec<(String, SiteData)>,
}

impl View for SiteTable {
    type V = Seq<(Seq<char>, SiteData)>;

    open spec fn view(&self) -> Seq<(Seq<char>, SiteData)> {
        named_view(self.entries@)
    }
}

impl SiteTable {
    /// No site name occurs twice.
    pub open spec fn wf(&self) -> bool {
        unique_keys(self@)
    }

    /// An empty table.
    pub fn new() -> (r: SiteTable)
        ensures
            r@ == Seq::<(Seq<char>, SiteData)>::empty(),
            r.wf(),
    {
        SiteTable { entries: Vec::new() }
    }

    /// Number of sites in the table.
    pub fn len(&self) -> (r: usize)
        ensures
            r == self@.len(),
    {
        self.entries.len()
    }

    /// Stores `site` under `name`, replacing an earlier site of that name.
    pub fn insert(&mut self, name: String, site: SiteData)
        requires
            old(self).wf(),
        ensures
            final(self)@ == table_put(old(self)@, name@, site),
            final(self).wf(),
    {
        let ghost s = self@;
        match find_key(&self.entries, &name) {
            Some(i) => {
                let ghost k = name@;
                self.entries.set(i, (name, site));
                proof {
                    assert(key_index(s, k) == i as int);
                    assert(self@ =~= s.update(i as int, (k, site)));
                }
            },
            None => {
                let ghost k = name@;
                self.entries.push((name, site));
                assert(self@ =~= s.push((k, site)));
            },
        }
    }
}

} // verus!
