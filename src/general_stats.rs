use vstd::prelude::*;
use crate::ranking::{is_top_ranking, names};
use crate::record::RecordError;
use crate::site_data::{get_site_top_ten, get_tag_top_ten, site_totals, table_put, SiteData, SiteTable};
use crate::tag_data::{has_key, key_index, named_view, tally_add, TagData, TagTable};
use crate::total_stats::TotalStats;

verus! {

/// The report of one run: every site, the global tag tally and the totals.
#[derive(Clone, Debug)]
pub struct GeneralStats {
    /// Identifier of the report's author.
    pub padron: String,
    pub sites: SiteTable,
    pub tags: TagTable,
    pub totals: TotalStats,
}

/// The identifier every report carries.
pub open spec fn padron_id() -> Seq<char> {
    "106998"@
}

/// Table `t` with every entry of `s` that has questions added in.
pub open spec fn merge_table(t: Seq<(Seq<char>, TagData)>, s: Seq<(Seq<char>, TagData)>) -> Seq<
    (Seq<char>, TagData),
>
    decreases s.len(),
{
    if s.len() == 0 {
        t
    } else {
        let p = merge_table(t, s.drop_last());
        let e = s.last();
        if e.1.questions > 0 {
            tally_add(p, e.0, e.1.questions, e.1.words)
        } else {
            p
        }
    }
}

/// The global tag tally: every site's tags summed per tag, in site order.
pub open spec fn merge_sites(sites: Seq<(Seq<char>, SiteData)>) -> Seq<(Seq<char>, TagData)>
    decreases sites.len(),
{
    if sites.len() == 0 {
        Seq::empty()
    } else {
        merge_table(merge_sites(sites.drop_last()), sites.last().1.tags@)
    }
}

/// The site table holding `s` inserted in order (a later name replaces an
/// earlier one).
pub open spec fn put_all(s: Seq<(Seq<char>, SiteData)>) -> Seq<(Seq<char>, SiteData)>
    decreases s.len(),
{
    if s.len() == 0 {
        Seq::empty()
    } else {
        table_put(put_all(s.drop_last()), s.last().0, s.last().1)
    }
}

/// Every site of the table model `s` is well formed.
pub open spec fn sites_wf(s: Seq<(Seq<char>, SiteData)>) -> bool {
    forall|i: int| 0 <= i < s.len() ==> (#[trigger] s[i]).1.wf()
}

proof fn lemma_put_all_wf(s: Seq<(Seq<char>, SiteData)>)
    requires
        sites_wf(s),
    ensures
        sites_wf(put_all(s)),
    decreases s.len(),
{
    if s.len() > 0 {
        let p = s.drop_last();
        assert(sites_wf(p)) by {
            assert forall|i: int| 0 <= i < p.len() implies (#[trigger] p[i]).1.wf() by {
                assert(p[i] == s[i]);
            }
        }
        lemma_put_all_wf(p);
        let q = put_all(p);
        let k = s.last().0;
        assert(s.last().1.wf());
        if has_key(q, k) {
            let j = key_index(q, k);
            assert(0 <= j < q.len());
        }
    }
}

/// The report of `sites`: its sites, their merged tags, and the chattiest
/// tags and sites ranked from those.
pub open spec fn is_report_of(r: GeneralStats, sites: Seq<(Seq<char>, SiteData)>) -> bool {
    &&& r.padron@ == padron_id()
    &&& r.sites@ == put_all(sites)
    &&& r.sites.wf()
    &&& forall|i: int| 0 <= i < r.sites@.len() ==> (#[trigger] r.sites@[i]).1.wf()
    &&& r.tags@ == merge_sites(r.sites@)
    &&& r.tags.wf()
    &&& exists|idx: Seq<int>| #[trigger] is_top_ranking(r.tags@, names(r.totals.chatty_tags@), idx)
    &&& exists|idx: Seq<int>|
        #[trigger] is_top_ranking(site_totals(r.sites@), names(r.totals.chatty_sites@), idx)
}

impl GeneralStats {
    /// The report of a directory that could not be listed: nothing in it.
    pub fn empty() -> (r: GeneralStats)
        ensures
            r.padron@ == padron_id(),
            r.sites@.len() == 0,
            r.tags@.len() == 0,
            r.totals.chatty_sites@.len() == 0,
            r.totals.chatty_tags@.len() == 0,
    {
        GeneralStats {
            padron: "106998".to_owned(),
            sites: SiteTable::new(),
            tags: TagTable::new(),
            totals: TotalStats { chatty_sites: Vec::new(), chatty_tags: Vec::new() },
        }
    }
}

/// Sums every site's tags into one table.
pub fn merge_site_tags(sites: &SiteTable) -> (r: TagTable)
    ensures
        r@ == merge_sites(sites@),
        r.wf(),
{
    let ghost s = sites@;
    let mut global = TagTable::new();
    let mut i: usize = 0;
    while i < sites.entries.len()
        invariant
            s == sites@,
            i <= s.len(),
            global.wf(),
            global@ == merge_sites(s.take(i as int)),
        decreases s.len() - i,
    {
        assert(s.take(i + 1).drop_last() =~= s.take(i as int));
        let site = &sites.entries[i].1;
        let ghost g0 = global@;
        let ghost ts = site.tags@;
        let mut j: usize = 0;
        while j < site.tags.entries.len()
            invariant
                ts == site.tags@,
                j <= ts.len(),
                global.wf(),
                global@ == merge_table(g0, ts.take(j as int)),
            decreases ts.len() - j,
        {
            assert(ts.take(j + 1).drop_last() =~= ts.take(j as int));
            let e = &site.tags.entries[j];
            if e.1.questions > 0 {
                global.add(&e.0, e.1.questions, e.1.words);
            }
            j += 1;
        }
        assert(ts.take(ts.len() as int) =~= ts);
        assert(s[i as int].1 == *site);
        i += 1;
    }
    assert(s.take(s.len() as int) =~= s);
    global
}

/// Builds the report of the sites that were processed: each under its name
/// (a later name replaces an earlier one), every site's tags summed per tag,
/// and the chattiest tags and sites.
pub fn reduce_sites(sites: Vec<(String, SiteData)>) -> (r: GeneralStats)
    requires
        sites_wf(named_view(sites@)),
    ensures
        is_report_of(r, named_view(sites@)),
{
    let ghost s = named_view(sites@);
    let mut rest = sites;
    let mut table = SiteTable::new();
    let ghost mut done: int = 0;
    while rest.len() > 0
        invariant
            0 <= done <= s.len(),
            named_view(rest@) == s.skip(done),
            table.wf(),
            table@ == put_all(s.take(done)),
        decreases rest@.len(),
    {
        let ghost r0 = named_view(rest@);
        let ghost v0 = rest@;
        let (name, site) = rest.remove(0);
        proof {
            assert(r0 == s.skip(done));
            assert(r0.len() == s.len() - done);
            assert(r0[0] == s.skip(done)[0]);
            assert(r0[0] == s[done]);
            assert((name@, site) == r0[0]);
            assert(s.take(done + 1).drop_last() =~= s.take(done));
            assert(rest@ =~= v0.subrange(1, v0.len() as int));
            assert(named_view(rest@) =~= r0.skip(1));
            assert(named_view(rest@) =~= s.skip(done + 1));
        }
        table.insert(name, site);
        proof {
            done = done + 1;
        }
    }
    assert(s.take(done) =~= s);
    proof {
        lemma_put_all_wf(s);
    }
    let tags = merge_site_tags(&table);
    let chatty_tags = get_tag_top_ten(&tags);
    let chatty_sites = get_site_top_ten(&table.entries);
    let ghost tags_v = tags@;
    let ghost table_v = table@;
    let r = GeneralStats {
        padron: "106998".to_owned(),
        sites: table,
        tags,
        totals: TotalStats { chatty_sites, chatty_tags },
    };
    assert(r.sites@ == put_all(s));
    assert(r.tags@ == tags_v);
    assert(r.sites@ == table_v);
    assert(names(r.totals.chatty_tags@) == names(chatty_tags@));
    assert(names(r.totals.chatty_sites@) == names(chatty_sites@));
    assert(exists|idx: Seq<int>| #[trigger] is_top_ranking(r.tags@, names(r.totals.chatty_tags@), idx));
    assert(exists|idx: Seq<int>| #[trigger] is_top_ranking(site_totals(r.sites@), names(r.totals.chatty_sites@), idx));
    r
}

/// `s` holds "json" somewhere.
pub open spec fn names_json(s: Seq<char>) -> bool {
    exists|i: int|
        0 <= i && i + 4 <= s.len() && #[trigger] s[i] == 'j' && s[i + 1] == 's' && s[i + 2] == 'o' && s[i
            + 3] == 'n'
}

/// Whether a directory entry named `name` holds site data: its name
/// contains "json" (case-sensitive, anywhere in the name).
pub fn is_data_file(name: &str) -> (r: bool)
    ensures
        r == names_json(name@),
{
    let n = name.unicode_len();
    if n < 4 {
        return false;
    }
    let mut i: usize = 0;
    while i < n - 3
        invariant
            n == name@.len(),
            4 <= n,
            i + 3 <= n,
            forall|k: int|
                0 <= k < i ==> !(#[trigger] name@[k] == 'j' && name@[k + 1] == 's' && name@[k + 2] == 'o'
                    && name@[k + 3] == 'n'),
        decreases n - i,
    {
        if name.get_char(i) == 'j' && name.get_char(i + 1) == 's' && name.get_char(i + 2) == 'o'
            && name.get_char(i + 3) == 'n' {
            return true;
        }
        i += 1;
    }
    false
}

/// The names among `names` that hold site data, in order.
pub fn select_data_files(names: Vec<String>) -> (r: Vec<String>)
    ensures
        crate::ranking::names(r@) == crate::ranking::names(names@).filter(|s: Seq<char>| names_json(s)),
{
    let ghost ns = crate::ranking::names(names@);
    let mut out: Vec<String> = Vec::new();
    let mut i: usize = 0;
    while i < names.len()
        invariant
            ns == crate::ranking::names(names@),
            i <= names@.len(),
            crate::ranking::names(out@) == ns.take(i as int).filter(|s: Seq<char>| names_json(s)),
        decreases names@.len() - i,
    {
        proof {
            assert(ns.take(i + 1) =~= ns.take(i as int).push(ns[i as int]));
            ns.take(i as int).lemma_filter_push(ns[i as int], |s: Seq<char>| names_json(s));
        }
        if is_data_file(names[i].as_str()) {
            out.push(names[i].clone());
            assert(crate::ranking::names(out@) =~= ns.take(i as int).filter(|s: Seq<char>| names_json(s)).push(ns[i as int]));
        }
        i += 1;
    }
    assert(ns.take(names@.len() as int) =~= ns);
    out
}

/// A successful outcome holds a well-formed site.
pub open spec fn outcome_wf(o: Result<SiteData, RecordError>) -> bool {
    match o {
        Ok(site) => site.wf(),
        Err(_) => true,
    }
}

/// The processed files that become sites: those named as site data whose
/// processing succeeded.
pub open spec fn kept_sites(v: Seq<(Seq<char>, Result<SiteData, RecordError>)>) -> Seq<(Seq<char>, SiteData)>
    decreases v.len(),
{
    if v.len() == 0 {
        Seq::empty()
    } else {
        let p = kept_sites(v.drop_last());
        match v.last().1 {
            Ok(site) => if names_json(v.last().0) {
                p.push((v.last().0, site))
            } else {
                p
            },
            Err(_) => p,
        }
    }
}

/// Builds the report of a directory from the outcome of processing each of
/// its files, or from `None` when the directory could not be listed, which
/// gives the empty report. Files whose processing failed, and files not
/// named as site data, are left out.
pub fn process_directory(listing: Option<Vec<(String, Result<SiteData, RecordError>)>>) -> (r: GeneralStats)
    requires
        listing matches Some(v) ==> forall|i: int|
            0 <= i < v@.len() ==> outcome_wf((#[trigger] v@[i]).1),
    ensures
        listing is None ==> r.padron@ == padron_id() && r.sites@.len() == 0 && r.tags@.len() == 0
            && r.totals.chatty_sites@.len() == 0 && r.totals.chatty_tags@.len() == 0,
        listing matches Some(v) ==> is_report_of(r, kept_sites(named_view(v@))),
{
    match listing {
        None => GeneralStats::empty(),
        Some(files) => {
            let ghost fv = named_view(files@);
            assert forall|i: int| 0 <= i < fv.len() implies outcome_wf((#[trigger] fv[i]).1) by {
                assert(fv[i].1 == files@[i].1);
            }
            let mut rest = files;
            let mut sites: Vec<(String, SiteData)> = Vec::new();
            let ghost mut done: int = 0;
            while rest.len() > 0
                invariant
                    0 <= done <= fv.len(),
                    named_view(rest@) == fv.skip(done),
                    named_view(sites@) == kept_sites(fv.take(done)),
                    sites_wf(named_view(sites@)),
                    forall|i: int|
                        0 <= i < fv.len() ==> outcome_wf((#[trigger] fv[i]).1),
                decreases rest@.len(),
            {
                let ghost r0 = named_view(rest@);
                let ghost v0 = rest@;
                let (name, outcome) = rest.remove(0);
                proof {
                    assert(r0 == fv.skip(done));
                    assert(r0[0] == fv.skip(done)[0]);
                    assert((name@, outcome) == fv[done]);
                    assert(fv.take(done + 1).drop_last() =~= fv.take(done));
                    assert(rest@ =~= v0.subrange(1, v0.len() as int));
                    assert(named_view(rest@) =~= r0.skip(1));
                    assert(named_view(rest@) =~= fv.skip(done + 1));
                }
                match outcome {
                    Ok(site) => {
                        if is_data_file(name.as_str()) {
                            let ghost k = name@;
                            sites.push((name, site));
                            assert(named_view(sites@) =~= kept_sites(fv.take(done)).push((k, site)));
                        }
                    },
                    Err(_) => {},
                }
                proof {
                    done = done + 1;
                }
            }
            assert(fv.take(done) =~= fv);
            reduce_sites(sites)
        },
    }
}

} // verus!
