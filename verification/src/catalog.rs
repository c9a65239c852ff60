//! The option catalog: the set of option names a template file declares,
//! together with the prefixed normalized key under which each can be
//! overridden from outside.
//!
//! A line declares an option if, after an optional leading comment marker
//! (`;` or `#`) and any following spaces, it consists of a non-empty run of
//! name characters followed directly by `=`.

use vstd::prelude::*;
use crate::names::is_name_char;
use crate::names::normalized;
use crate::names::normalize_name;
use crate::text::chars_to_string;
use crate::text::str_eq;

verus! {

/// The fixed prefix that override identifiers carry.
pub open spec fn spec_config_prefix() -> Seq<char> {
    "MUMBLE_CONFIG_"@
}

/// The fixed prefix that override identifiers carry.
pub fn config_prefix() -> (r: &'static str)
    ensures
        r@ == spec_config_prefix(),
{
    "MUMBLE_CONFIG_"
}

/// The override key of a canonical option name: the fixed prefix followed
/// by the normalized name.
pub open spec fn key_of(name: Seq<char>) -> Seq<char> {
    spec_config_prefix() + normalized(name)
}

/// One catalog entry: a canonical option name and its override key.
pub struct CatalogEntry {
    pub name: String,
    pub key: String,
}

/// The mathematical form of a catalog entry.
pub struct SpecCatalogEntry {
    pub name: Seq<char>,
    pub key: Seq<char>,
}

impl View for CatalogEntry {
    type V = SpecCatalogEntry;

    open spec fn view(&self) -> SpecCatalogEntry {
        SpecCatalogEntry { name: self.name@, key: self.key@ }
    }
}

/// The views of a sequence of catalog entries.
pub open spec fn cat_view(entries: Seq<CatalogEntry>) -> Seq<SpecCatalogEntry> {
    entries.map_values(|e: CatalogEntry| e@)
}

/// The first index at or after `i` whose character is not a space
/// (or the end of the sequence).
pub open spec fn spaces_end(s: Seq<char>, i: int) -> int
    decreases s.len() - i,
{
    if 0 <= i < s.len() && s[i] == ' ' {
        spaces_end(s, i + 1)
    } else {
        i
    }
}

/// The first index at or after `i` whose character is not a name character
/// (or the end of the sequence).
pub open spec fn name_end(s: Seq<char>, i: int) -> int
    decreases s.len() - i,
{
    if 0 <= i < s.len() && is_name_char(s[i]) {
        name_end(s, i + 1)
    } else {
        i
    }
}

/// The first index at or after `i` holding a newline
/// (or the end of the sequence).
pub open spec fn nl_end(s: Seq<char>, i: int) -> int
    decreases s.len() - i,
{
    if 0 <= i < s.len() && s[i] != '\n' {
        nl_end(s, i + 1)
    } else {
        i
    }
}

proof fn lemma_spaces_end_at(s: Seq<char>, i: int, j: int)
    requires
        0 <= i <= j <= s.len(),
        forall|t: int| i <= t < j ==> s[t] == ' ',
        j < s.len() ==> s[j] != ' ',
    ensures
        spaces_end(s, i) == j,
    decreases j - i,
{
    if i < j {
        lemma_spaces_end_at(s, i + 1, j);
    }
}

proof fn lemma_name_end_at(s: Seq<char>, i: int, j: int)
    requires
        0 <= i <= j <= s.len(),
        forall|t: int| i <= t < j ==> is_name_char(s[t]),
        j < s.len() ==> !is_name_char(s[j]),
    ensures
        name_end(s, i) == j,
    decreases j - i,
{
    if i < j {
        lemma_name_end_at(s, i + 1, j);
    }
}

proof fn lemma_nl_end_at(s: Seq<char>, i: int, j: int)
    requires
        0 <= i <= j <= s.len(),
        forall|t: int| i <= t < j ==> s[t] != '\n',
        j < s.len() ==> s[j] == '\n',
    ensures
        nl_end(s, i) == j,
    decreases j - i,
{
    if i < j {
        lemma_nl_end_at(s, i + 1, j);
    }
}

proof fn lemma_nl_end_ge(s: Seq<char>, i: int)
    requires
        0 <= i <= s.len(),
    ensures
        i <= nl_end(s, i) <= s.len(),
    decreases s.len() - i,
{
    if i < s.len() && s[i] != '\n' {
        lemma_nl_end_ge(s, i + 1);
    }
}

/// The length of the optional leading comment marker of a line.
pub open spec fn marker_len(line: Seq<char>) -> int {
    if line.len() > 0 && (line[0] == ';' || line[0] == '#') {
        1
    } else {
        0
    }
}

/// The option name a line declares, if any.
pub open spec fn spec_line_name(line: Seq<char>) -> Option<Seq<char>> {
    let j = spaces_end(line, marker_len(line));
    let k = name_end(line, j);
    if j < k && k < line.len() && line[k] == '=' {
        Some(line.subrange(j, k))
    } else {
        None
    }
}

/// The catalog entries a single line contributes.
pub open spec fn entry_of_line(line: Seq<char>) -> Seq<SpecCatalogEntry> {
    match spec_line_name(line) {
        Some(name) => seq![SpecCatalogEntry { name: name, key: key_of(name) }],
        None => Seq::empty(),
    }
}

/// The catalog a template text declares, line by line, in file order.
pub open spec fn spec_catalog(text: Seq<char>) -> Seq<SpecCatalogEntry>
    decreases text.len(),
    via spec_catalog_decreases
{
    let j = nl_end(text, 0);
    if j >= text.len() {
        entry_of_line(text)
    } else {
        entry_of_line(text.take(j)) + spec_catalog(text.skip(j + 1))
    }
}

#[via_fn]
proof fn spec_catalog_decreases(text: Seq<char>) {
    lemma_nl_end_ge(text, 0);
}

/// Whether a name character is at hand.
pub fn name_char(c: char) -> (r: bool)
    ensures
        r == is_name_char(c),
{
    ('a' <= c && c <= 'z') || ('A' <= c && c <= 'Z') || ('0' <= c && c <= '9') || c == '_'
}

/// Parse one line; return its catalog entry, if it declares an option.
pub fn line_entry(line: &Vec<char>) -> (r: Option<CatalogEntry>)
    ensures
        match r {
            Some(e) => spec_line_name(line@) == Some(e@.name) && e@.key == key_of(e@.name),
            None => spec_line_name(line@) is None,
        },
{
    let n = line.len();
    let m: usize = if n > 0 && (line[0] == ';' || line[0] == '#') {
        1
    } else {
        0
    };
    proof {
        assert(marker_len(line@) == m as int);
    }
    let mut j: usize = m;
    while j < n && line[j] == ' '
        invariant
            m <= j <= n,
            n == line@.len(),
            forall|t: int| m <= t < j ==> line@[t] == ' ',
        decreases n - j,
    {
        j += 1;
    }
    proof {
        lemma_spaces_end_at(line@, m as int, j as int);
    }
    let mut k: usize = j;
    while k < n && name_char(line[k])
        invariant
            j <= k <= n,
            n == line@.len(),
            forall|t: int| j <= t < k ==> is_name_char(line@[t]),
        decreases n - k,
    {
        k += 1;
    }
    proof {
        lemma_name_end_at(line@, j as int, k as int);
    }
    if j < k && k < n && line[k] == '=' {
        let mut nm: Vec<char> = Vec::new();
        let mut t: usize = j;
        while t < k
            invariant
                j <= t <= k <= n,
                n == line@.len(),
                nm@ == line@.subrange(j as int, t as int),
            decreases k - t,
        {
            nm.push(line[t]);
            proof {
                assert(line@.subrange(j as int, t + 1 as int) =~= line@.subrange(
                    j as int,
                    t as int,
                ).push(line@[t as int]));
            }
            t += 1;
        }
        let name = chars_to_string(&nm);
        let norm = normalize_name(name.as_str());
        let mut key = String::new();
        key.append(config_prefix());
        key.append(norm.as_str());
        Some(CatalogEntry { name, key })
    } else {
        None
    }
}

/// Build the catalog that a template text declares.
pub fn build_catalog(template: &str) -> (r: Vec<CatalogEntry>)
    ensures
        cat_view(r@) == spec_catalog(template@),
{
    let chars = crate::text::str_to_chars(template);
    let n = chars.len();
    let mut result: Vec<CatalogEntry> = Vec::new();
    let mut start: usize = 0;
    let mut done = false;
    proof {
        assert(cat_view(Seq::<CatalogEntry>::empty()) =~= Seq::<SpecCatalogEntry>::empty());
        assert(template@.skip(0) =~= template@);
        assert(cat_view(Seq::<CatalogEntry>::empty()) + spec_catalog(template@) =~= spec_catalog(
            template@,
        ));
    }
    while !done
        invariant
            n == chars@.len(),
            chars@ == template@,
            0 <= start <= n,
            !done ==> cat_view(result@) + spec_catalog(template@.skip(start as int))
                == spec_catalog(template@),
            done ==> cat_view(result@) == spec_catalog(template@),
        decreases (n - start) + (if done { 0int } else { 1int }),
    {
        let ghost rest = template@.skip(start as int);
        let mut end: usize = start;
        while end < n && chars[end] != '\n'
            invariant
                n == chars@.len(),
                start <= end <= n,
                forall|t: int| start <= t < end ==> chars@[t] != '\n',
            decreases n - end,
        {
            end += 1;
        }
        proof {
            assert forall|t: int| 0 <= t < end - start implies rest[t] != '\n' by {
                assert(rest[t] == template@[start + t]);
            }
            if (end - start as int) < rest.len() {
                assert(rest[end - start as int] == template@[end as int]);
            }
            lemma_nl_end_at(rest, 0, end - start as int);
        }
        let line = line_chars(&chars, start, end);
        proof {
            assert(line@ =~= rest.take(end - start as int));
        }
        match line_entry(&line) {
            Some(e) => {
                proof {
                    assert(entry_of_line(line@) =~= seq![e@]);
                }
                result.push(e);
            },
            None => {
                proof {
                    assert(entry_of_line(line@) =~= Seq::<SpecCatalogEntry>::empty());
                }
            },
        }
        if end < n {
            proof {
                assert(rest.take(end - start as int) =~= line@);
                assert(rest.skip(end - start + 1 as int) =~= template@.skip(end + 1 as int));
                assert(spec_catalog(rest) == entry_of_line(line@) + spec_catalog(
                    template@.skip(end + 1 as int),
                ));
                lemma_cat_view_push(result@, rest);
            }
            start = end + 1;
        } else {
            proof {
                assert(rest =~= rest.take(end - start as int));
                assert(spec_catalog(rest) == entry_of_line(line@));
                lemma_cat_view_push(result@, rest);
            }
            done = true;
        }
    }
    result
}

proof fn lemma_cat_view_push(entries: Seq<CatalogEntry>, rest: Seq<char>) {
    assert forall|e: CatalogEntry| cat_view(entries.push(e)) =~= cat_view(entries).push(e@) by {
        assert(entries.push(e).map_values(|x: CatalogEntry| x@).len() == entries.len() + 1);
    }
}

/// The characters of one line, copied out of the full text.
fn line_chars(chars: &Vec<char>, from: usize, to: usize) -> (r: Vec<char>)
    requires
        from <= to <= chars@.len(),
    ensures
        r@ == chars@.subrange(from as int, to as int),
{
    let mut out: Vec<char> = Vec::new();
    let mut t: usize = from;
    while t < to
        invariant
            from <= t <= to <= chars@.len(),
            out@ == chars@.subrange(from as int, t as int),
        decreases to - t,
    {
        out.push(chars[t]);
        proof {
            assert(chars@.subrange(from as int, t + 1 as int) =~= chars@.subrange(
                from as int,
                t as int,
            ).push(chars@[t as int]));
        }
        t += 1;
    }
    out
}

/// The canonical name under an override key: the name of the last
/// catalog entry carrying that key, as a map insertion done in file order
/// would leave it.
pub open spec fn spec_lookup(cat: Seq<SpecCatalogEntry>, id: Seq<char>) -> Option<Seq<char>>
    decreases cat.len(),
{
    if cat.len() == 0 {
        None
    } else if cat.last().key == id {
        Some(cat.last().name)
    } else {
        spec_lookup(cat.drop_last(), id)
    }
}

/// Look up the canonical option name for an override identifier.
pub fn lookup_option(catalog: &Vec<CatalogEntry>, id: &str) -> (r: Option<String>)
    ensures
        match r {
            Some(name) => spec_lookup(cat_view(catalog@), id@) == Some(name@),
            None => spec_lookup(cat_view(catalog@), id@) is None,
        },
{
    let n = catalog.len();
    let mut i: usize = n;
    proof {
        assert(cat_view(catalog@).take(n as int) =~= cat_view(catalog@));
    }
    while i > 0
        invariant
            0 <= i <= n,
            n == catalog@.len(),
            spec_lookup(cat_view(catalog@), id@) == spec_lookup(
                cat_view(catalog@).take(i as int),
                id@,
            ),
        decreases i,
    {
        i -= 1;
        proof {
            assert(cat_view(catalog@).take(i + 1 as int).last() == catalog@[i as int]@);
            assert(cat_view(catalog@).take(i + 1 as int).drop_last() =~= cat_view(
                catalog@,
            ).take(i as int));
        }
        if str_eq(catalog[i].key.as_str(), id) {
            return Some(catalog[i].name.clone());
        }
    }
    proof {
        assert(cat_view(catalog@).take(0) =~= Seq::<SpecCatalogEntry>::empty());
    }
    None
}

/// Whether an earlier entry claims the same key under a different name.
pub open spec fn has_conflict(prev: Seq<SpecCatalogEntry>, e: SpecCatalogEntry) -> bool {
    exists|j: int| 0 <= j < prev.len() && prev[j].key == e.key && prev[j].name != e.name
}

/// The names of entries whose key collides with an earlier, differently
/// named entry, in file order.
pub open spec fn spec_collisions(cat: Seq<SpecCatalogEntry>) -> Seq<Seq<char>>
    decreases cat.len(),
{
    if cat.len() == 0 {
        Seq::empty()
    } else {
        spec_collisions(cat.drop_last()) + (if has_conflict(cat.drop_last(), cat.last()) {
            seq![cat.last().name]
        } else {
            Seq::empty()
        })
    }
}

/// The names of the catalog entries whose normalized key collides with an
/// earlier, differently named entry, in file order.
pub fn catalog_collisions(catalog: &Vec<CatalogEntry>) -> (r: Vec<String>)
    ensures
        r@.map_values(|s: String| s@) == spec_collisions(cat_view(catalog@)),
{
    let n = catalog.len();
    let mut result: Vec<String> = Vec::new();
    proof {
        assert(Seq::<String>::empty().map_values(|s: String| s@) =~= Seq::<Seq<char>>::empty());
        assert(cat_view(catalog@).take(0) =~= Seq::<SpecCatalogEntry>::empty());
    }
    let mut i: usize = 0;
    while i < n
        invariant
            0 <= i <= n,
            n == catalog@.len(),
            result@.map_values(|s: String| s@) == spec_collisions(cat_view(catalog@).take(i as int)),
        decreases n - i,
    {
        let ghost prev = cat_view(catalog@).take(i as int);
        let mut found = false;
        let mut j: usize = 0;
        while j < i
            invariant
                0 <= j <= i < n,
                n == catalog@.len(),
                prev == cat_view(catalog@).take(i as int),
                !found ==> forall|t: int|
                    0 <= t < j ==> !(prev[t].key == catalog@[i as int]@.key && prev[t].name
                        != catalog@[i as int]@.name),
                found ==> has_conflict(prev, catalog@[i as int]@),
            decreases i - j,
        {
            if !found && str_eq(catalog[j].key.as_str(), catalog[i].key.as_str()) && !str_eq(
                catalog[j].name.as_str(),
                catalog[i].name.as_str(),
            ) {
                proof {
                    assert(prev[j as int] == catalog@[j as int]@);
                }
                found = true;
            }
            j += 1;
        }
        proof {
            assert(cat_view(catalog@).take(i + 1 as int).last() == catalog@[i as int]@);
            assert(cat_view(catalog@).take(i + 1 as int).drop_last() =~= prev);
        }
        if found {
            result.push(catalog[i].name.clone());
            proof {
                assert(result@.map_values(|s: String| s@) =~= spec_collisions(
                    cat_view(catalog@).take(i + 1 as int),
                ));
            }
        } else {
            proof {
                assert(spec_collisions(cat_view(catalog@).take(i + 1 as int)) =~= spec_collisions(
                    prev,
                ));
            }
        }
        i += 1;
    }
    proof {
        assert(cat_view(catalog@).take(n as int) =~= cat_view(catalog@));
    }
    result
}

/// No two entries of the catalog share a key under different names.
pub open spec fn no_collisions(cat: Seq<SpecCatalogEntry>) -> bool {
    forall|i: int, j: int|
        0 <= i < cat.len() && 0 <= j < cat.len() && cat[i].key == cat[j].key ==> cat[i].name
            == cat[j].name
}

/// Looking up any entry's own key finds that entry's name, as long as no
/// two entries share a key under different names.
pub proof fn lemma_lookup_finds(cat: Seq<SpecCatalogEntry>, i: int)
    requires
        no_collisions(cat),
        0 <= i < cat.len(),
    ensures
        spec_lookup(cat, cat[i].key) == Some(cat[i].name),
    decreases cat.len(),
{
    if cat.last().key == cat[i].key {
        assert(cat[cat.len() - 1].name == cat[i].name);
    } else {
        assert(i < cat.len() - 1);
        assert forall|a: int, b: int|
            0 <= a < cat.drop_last().len() && 0 <= b < cat.drop_last().len()
                && cat.drop_last()[a].key == cat.drop_last()[b].key implies cat.drop_last()[a].name
            == cat.drop_last()[b].name by {
            assert(cat.drop_last()[a] == cat[a]);
            assert(cat.drop_last()[b] == cat[b]);
        }
        assert(cat.drop_last()[i] == cat[i]);
        lemma_lookup_finds(cat.drop_last(), i);
    }
}

/// Every catalog entry's key is the fixed prefix followed by the
/// normalized form of its own name.
pub proof fn lemma_catalog_entry_key(text: Seq<char>, i: int)
    requires
        0 <= i < spec_catalog(text).len(),
    ensures
        spec_catalog(text)[i].key == key_of(spec_catalog(text)[i].name),
    decreases text.len(),
{
    let j = nl_end(text, 0);
    lemma_nl_end_ge(text, 0);
    if j >= text.len() {
    } else {
        let head = entry_of_line(text.take(j));
        if i < head.len() {
        } else {
            lemma_catalog_entry_key(text.skip(j + 1), i - head.len());
        }
    }
}

/// For every option a template declares, absent collisions, normalization
/// is reversible: the catalog maps the prefixed normalized name back to
/// the originating canonical name.
pub proof fn lemma_normalization_reversible(text: Seq<char>, i: int)
    requires
        no_collisions(spec_catalog(text)),
        0 <= i < spec_catalog(text).len(),
    ensures
        spec_lookup(
            spec_catalog(text),
            spec_config_prefix() + normalized(spec_catalog(text)[i].name),
        ) == Some(spec_catalog(text)[i].name),
{
    lemma_catalog_entry_key(text, i);
    lemma_lookup_finds(spec_catalog(text), i);
}

} // verus!
