//! Configuration synthesis: resolving overrides against the catalog,
//! applying built-in defaults under a defaults-never-clobber-overrides
//! rule, and accumulating the output document together with a provenance
//! log in which sensitive values are masked.

use vstd::prelude::*;
use crate::catalog::CatalogEntry;
use crate::catalog::SpecCatalogEntry;
use crate::catalog::cat_view;
use crate::catalog::spec_lookup;
use crate::catalog::lookup_option;
use crate::names::spec_sensitive;
use crate::names::is_sensitive;
use crate::text::str_eq;

verus! {

/// One resolved option: a canonical name, the decided value, and whether
/// it came from a built-in default rather than a user override.
pub struct SpecEntry {
    pub name: Seq<char>,
    pub value: Seq<char>,
    pub is_default: bool,
}

/// The names of the resolved options, in resolution order.
pub open spec fn entry_names(entries: Seq<SpecEntry>) -> Seq<Seq<char>> {
    entries.map_values(|e: SpecEntry| e.name)
}

/// The views of a sequence of strings.
pub open spec fn str_views(l: Seq<String>) -> Seq<Seq<char>> {
    l.map_values(|s: String| s@)
}

/// The views of a sequence of string pairs.
pub open spec fn ov_views(l: Seq<(String, String)>) -> Seq<(Seq<char>, Seq<char>)> {
    l.map_values(|p: (String, String)| (p.0@, p.1@))
}

/// The mask shown in place of a sensitive value.
pub open spec fn spec_mask() -> Seq<char> {
    "*********"@
}

/// The log line recording one resolved option; a sensitive option's value
/// is replaced by the fixed mask.
pub open spec fn spec_log_line(name: Seq<char>, value: Seq<char>) -> Seq<char> {
    "Setting config \""@ + name + "\" to: "@ + (if spec_sensitive(name) {
        spec_mask()
    } else {
        value
    })
}

/// The log line recording an override identifier that matched no catalog
/// entry.
pub open spec fn spec_notice(id: Seq<char>, from_secret: bool) -> Seq<char> {
    (if from_secret {
        "Could not find config option for secret "@
    } else {
        "Could not find config option for variable "@
    }) + id
}

/// The fixed comment that heads every generated document.
pub open spec fn spec_header() -> Seq<char> {
    "# Config file automatically generated from the MUMBLE_CONFIG_* environment variables or secrets in /run/secrets/MUMBLE_CONFIG_* files\n"@
}

/// The fixed comment that heads every generated document.
pub fn header() -> (r: &'static str)
    ensures
        r@ == spec_header(),
{
    "# Config file automatically generated from the MUMBLE_CONFIG_* environment variables or secrets in /run/secrets/MUMBLE_CONFIG_* files\n"
}

/// The fixed protocol-tuning stanza appended after all options.
pub open spec fn spec_stanza() -> Seq<char> {
    "\n[Ice]\nIce.Warn.UnknownProperties=1\nIce.MessageSizeMax=65536"@
}

/// The fixed protocol-tuning stanza appended after all options.
pub fn stanza() -> (r: &'static str)
    ensures
        r@ == spec_stanza(),
{
    "\n[Ice]\nIce.Warn.UnknownProperties=1\nIce.MessageSizeMax=65536"
}

/// One document line for a resolved option.
pub open spec fn render_entry(e: SpecEntry) -> Seq<char> {
    e.name + "="@ + e.value + "\n"@
}

/// The document body: one line per resolved option, in resolution order.
pub open spec fn render(entries: Seq<SpecEntry>) -> Seq<char>
    decreases entries.len(),
{
    if entries.len() == 0 {
        Seq::empty()
    } else {
        render(entries.drop_last()) + render_entry(entries.last())
    }
}

/// The synthesis state: the options resolved so far and the log so far.
pub struct SpecSynth {
    pub entries: Seq<SpecEntry>,
    pub log: Seq<Seq<char>>,
}

/// The state before anything has been resolved.
pub open spec fn spec_empty_state() -> SpecSynth {
    SpecSynth { entries: Seq::empty(), log: Seq::empty() }
}

/// Resolve one option: a default is dropped when the name was already
/// resolved; anything else appends a document line, marks the name used,
/// and logs the (possibly masked) value.
pub open spec fn spec_set(
    st: SpecSynth,
    name: Seq<char>,
    value: Seq<char>,
    is_default: bool,
) -> SpecSynth {
    if is_default && entry_names(st.entries).contains(name) {
        st
    } else {
        SpecSynth {
            entries: st.entries.push(SpecEntry { name, value, is_default }),
            log: st.log.push(spec_log_line(name, value)),
        }
    }
}

/// Resolve one override against the catalog: a matching identifier sets
/// the canonical option; an unmatched one only leaves a log notice.
pub open spec fn spec_resolve_one(
    st: SpecSynth,
    cat: Seq<SpecCatalogEntry>,
    ov: (Seq<char>, Seq<char>),
    from_secret: bool,
) -> SpecSynth {
    match spec_lookup(cat, ov.0) {
        Some(name) => spec_set(st, name, ov.1, false),
        None => SpecSynth { entries: st.entries, log: st.log.push(spec_notice(ov.0, from_secret)) },
    }
}

/// Resolve a list of overrides, in order.
pub open spec fn spec_resolve(
    st: SpecSynth,
    cat: Seq<SpecCatalogEntry>,
    ovs: Seq<(Seq<char>, Seq<char>)>,
    from_secret: bool,
) -> SpecSynth
    decreases ovs.len(),
{
    if ovs.len() == 0 {
        st
    } else {
        spec_resolve(spec_resolve_one(st, cat, ovs[0], from_secret), cat, ovs.drop_first(), from_secret)
    }
}

/// The built-in default for the `database` option: the legacy database
/// file when it exists on disk, the new default file otherwise.
pub open spec fn spec_db_default(legacy_db_exists: bool) -> Seq<char> {
    if legacy_db_exists {
        "/data/murmur.sqlite"@
    } else {
        "/data/mumble-server.sqlite"@
    }
}

/// The fixed default welcome message.
pub open spec fn spec_welcome() -> Seq<char> {
    "\"<br />Welcome to this server, running the official Mumble Docker image.<br />Enjoy your stay!<br />\""@
}

/// Apply the five built-in defaults, in their fixed order; each is dropped
/// when the option was already resolved from an override.
pub open spec fn spec_apply_defaults(st: SpecSynth, legacy_db_exists: bool) -> SpecSynth {
    let st1 = spec_set(st, "database"@, spec_db_default(legacy_db_exists), true);
    let st2 = spec_set(st1, "ice"@, "\"tcp -h 127.0.0.1 -p 6502\""@, true);
    let st3 = spec_set(st2, "welcometext"@, spec_welcome(), true);
    let st4 = spec_set(st3, "port"@, "64738"@, true);
    spec_set(st4, "users"@, "100"@, true)
}

/// The synthesis state after a whole run: environment overrides first,
/// then secret overrides, then the defaults.
pub open spec fn spec_synth_state(
    cat: Seq<SpecCatalogEntry>,
    env: Seq<(Seq<char>, Seq<char>)>,
    secrets: Seq<(Seq<char>, Seq<char>)>,
    legacy_db_exists: bool,
) -> SpecSynth {
    spec_apply_defaults(
        spec_resolve(spec_resolve(spec_empty_state(), cat, env, false), cat, secrets, true),
        legacy_db_exists,
    )
}

/// The full generated document of a run: header, one line per resolved
/// option, and the fixed protocol stanza.
pub open spec fn spec_document(
    cat: Seq<SpecCatalogEntry>,
    env: Seq<(Seq<char>, Seq<char>)>,
    secrets: Seq<(Seq<char>, Seq<char>)>,
    legacy_db_exists: bool,
) -> Seq<char> {
    spec_header() + render(spec_synth_state(cat, env, secrets, legacy_db_exists).entries)
        + spec_stanza()
}

pub broadcast proof fn lemma_entry_names_push(entries: Seq<SpecEntry>, e: SpecEntry)
    ensures
        #[trigger] entry_names(entries.push(e)) =~= entry_names(entries).push(e.name),
{
}

pub broadcast proof fn lemma_render_push(entries: Seq<SpecEntry>, e: SpecEntry)
    ensures
        #[trigger] render(entries.push(e)) == render(entries) + render_entry(e),
{
    assert(entries.push(e).drop_last() =~= entries);
    assert(entries.push(e).last() == e);
}

/// The in-progress synthesis: the document text, the names already
/// resolved, the provenance log, and the resolved options as ghost
/// history.
pub struct SynthContext {
    pub document: String,
    pub used: Vec<String>,
    pub log: Vec<String>,
    pub entries: Ghost<Seq<SpecEntry>>,
}

impl SynthContext {
    /// The synthesis state this context holds.
    pub open spec fn state(&self) -> SpecSynth {
        SpecSynth { entries: self.entries@, log: str_views(self.log@) }
    }

    /// The document is the header plus one line per resolved option, and
    /// the used names are exactly the resolved names, in order.
    pub open spec fn wf(&self) -> bool {
        &&& self.document@ == spec_header() + render(self.entries@)
        &&& str_views(self.used@) == entry_names(self.entries@)
    }

    /// A fresh context holding only the header.
    pub fn new() -> (r: SynthContext)
        ensures
            r.wf(),
            r.state() == spec_empty_state(),
    {
        let mut document = String::new();
        document.append(header());
        let r = SynthContext {
            document,
            used: Vec::new(),
            log: Vec::new(),
            entries: Ghost(Seq::empty()),
        };
        proof {
            assert(r.document@ =~= spec_header() + render(r.entries@));
            assert(str_views(r.used@) =~= entry_names(r.entries@));
            assert(str_views(r.log@) =~= Seq::<Seq<char>>::empty());
        }
        r
    }

    /// Whether the named option was already resolved in this run.
    fn used_contains(&self, name: &str) -> (r: bool)
        requires
            self.wf(),
        ensures
            r == entry_names(self.entries@).contains(name@),
    {
        let n = self.used.len();
        let mut i: usize = 0;
        while i < n
            invariant
                self.wf(),
                n == self.used@.len(),
                i <= n,
                forall|t: int| 0 <= t < i ==> self.used@[t]@ != name@,
            decreases n - i,
        {
            if str_eq(self.used[i].as_str(), name) {
                proof {
                    assert(entry_names(self.entries@)[i as int] == self.used@[i as int]@);
                }
                return true;
            }
            i += 1;
        }
        proof {
            if entry_names(self.entries@).contains(name@) {
                let t = choose|t: int|
                    0 <= t < entry_names(self.entries@).len() && entry_names(self.entries@)[t]
                        == name@;
                assert(self.used@[t]@ == name@);
            }
        }
        false
    }

    /// Resolve one option into the document, per the precedence rule:
    /// a default never overwrites an option already resolved in this run.
    pub fn set_config(&mut self, name: &str, value: &str, is_default: bool)
        requires
            old(self).wf(),
        ensures
            final(self).wf(),
            final(self).state() == spec_set(old(self).state(), name@, value@, is_default),
    {
        broadcast use lemma_entry_names_push, lemma_render_push;

        if is_default && self.used_contains(name) {
            return ;
        }
        let mut line = String::new();
        line.append("Setting config \"");
        line.append(name);
        line.append("\" to: ");
        if is_sensitive(name) {
            line.append("*********");
        } else {
            line.append(value);
        }
        proof {
            assert(line@ =~= spec_log_line(name@, value@));
        }
        self.log.push(line);
        self.used.push(name.to_owned());
        self.document.append(name);
        self.document.append("=");
        self.document.append(value);
        self.document.append("\n");
        let ghost e = SpecEntry { name: name@, value: value@, is_default };
        proof {
            self.entries@ = self.entries@.push(e);
        }
        proof {
            assert(render_entry(e) =~= name@ + "="@ + value@ + "\n"@);
            assert(self.document@ =~= spec_header() + render(self.entries@));
            assert(str_views(self.used@) =~= entry_names(self.entries@));
            assert(str_views(self.log@) =~= str_views(old(self).log@).push(
                spec_log_line(name@, value@),
            ));
        }
    }

    /// Resolve a list of collected overrides against the catalog, in
    /// order; unmatched identifiers only leave a log notice.
    pub fn resolve_overrides(
        &mut self,
        catalog: &Vec<CatalogEntry>,
        overrides: &Vec<(String, String)>,
        from_secret: bool,
    )
        requires
            old(self).wf(),
        ensures
            final(self).wf(),
            final(self).state() == spec_resolve(
                old(self).state(),
                cat_view(catalog@),
                ov_views(overrides@),
                from_secret,
            ),
    {
        let n = overrides.len();
        let mut i: usize = 0;
        proof {
            assert(ov_views(overrides@).take(0) =~= Seq::<(Seq<char>, Seq<char>)>::empty());
        }
        while i < n
            invariant
                self.wf(),
                n == overrides@.len(),
                i <= n,
                self.state() == spec_resolve(
                    old(self).state(),
                    cat_view(catalog@),
                    ov_views(overrides@).take(i as int),
                    from_secret,
                ),
            decreases n - i,
        {
            let ghost pre = self.state();
            let id = &overrides[i].0;
            let value = &overrides[i].1;
            match lookup_option(catalog, id.as_str()) {
                Some(name) => {
                    self.set_config(name.as_str(), value.as_str(), false);
                },
                None => {
                    let mut line = String::new();
                    if from_secret {
                        line.append("Could not find config option for secret ");
                    } else {
                        line.append("Could not find config option for variable ");
                    }
                    line.append(id.as_str());
                    proof {
                        assert(line@ =~= spec_notice(id@, from_secret));
                    }
                    self.log.push(line);
                    proof {
                        assert(str_views(self.log@) =~= pre.log.push(
                            spec_notice(id@, from_secret),
                        ));
                    }
                },
            }
            proof {
                assert(ov_views(overrides@)[i as int] == (id@, value@));
                assert(self.state() == spec_resolve_one(
                    pre,
                    cat_view(catalog@),
                    ov_views(overrides@)[i as int],
                    from_secret,
                ));
                lemma_resolve_snoc(
                    old(self).state(),
                    cat_view(catalog@),
                    ov_views(overrides@).take(i as int),
                    ov_views(overrides@)[i as int],
                    from_secret,
                );
                assert(ov_views(overrides@).take(i + 1 as int) =~= ov_views(overrides@).take(
                    i as int,
                ).push(ov_views(overrides@)[i as int]));
            }
            i += 1;
        }
        proof {
            assert(ov_views(overrides@).take(n as int) =~= ov_views(overrides@));
        }
    }

    /// Apply the five built-in defaults, in their fixed order.
    pub fn apply_defaults(&mut self, legacy_db_exists: bool)
        requires
            old(self).wf(),
        ensures
            final(self).wf(),
            final(self).state() == spec_apply_defaults(old(self).state(), legacy_db_exists),
    {
        if legacy_db_exists {
            self.set_config("database", "/data/murmur.sqlite", true);
        } else {
            self.set_config("database", "/data/mumble-server.sqlite", true);
        }
        self.set_config("ice", "\"tcp -h 127.0.0.1 -p 6502\"", true);
        self.set_config(
            "welcometext",
            "\"<br />Welcome to this server, running the official Mumble Docker image.<br />Enjoy your stay!<br />\"",
            true,
        );
        self.set_config("port", "64738", true);
        self.set_config("users", "100", true);
    }

    /// The finished document: the accumulated text followed by the fixed
    /// protocol stanza.
    pub fn final_document(&self) -> (r: String)
        requires
            self.wf(),
        ensures
            r@ == spec_header() + render(self.entries@) + spec_stanza(),
    {
        let mut r = self.document.clone();
        r.append(stanza());
        r
    }
}

/// Resolving one more override after a list is the same as resolving the
/// extended list.
pub proof fn lemma_resolve_snoc(
    st: SpecSynth,
    cat: Seq<SpecCatalogEntry>,
    ovs: Seq<(Seq<char>, Seq<char>)>,
    ov: (Seq<char>, Seq<char>),
    from_secret: bool,
)
    ensures
        spec_resolve(st, cat, ovs.push(ov), from_secret) == spec_resolve_one(
            spec_resolve(st, cat, ovs, from_secret),
            cat,
            ov,
            from_secret,
        ),
    decreases ovs.len(),
{
    if ovs.len() == 0 {
        let st1 = spec_resolve_one(st, cat, ov, from_secret);
        assert(ovs.push(ov)[0] == ov);
        assert(ovs.push(ov).drop_first() =~= Seq::<(Seq<char>, Seq<char>)>::empty());
        assert(spec_resolve(st1, cat, Seq::<(Seq<char>, Seq<char>)>::empty(), from_secret) == st1);
        assert(spec_resolve(st, cat, ovs, from_secret) == st);
    } else {
        assert(ovs.push(ov)[0] == ovs[0]);
        assert(ovs.push(ov).drop_first() =~= ovs.drop_first().push(ov));
        lemma_resolve_snoc(
            spec_resolve_one(st, cat, ovs[0], from_secret),
            cat,
            ovs.drop_first(),
            ov,
            from_secret,
        );
    }
}

/// The finished output of one synthesis run.
pub struct SynthOutput {
    pub document: String,
    pub log: Vec<String>,
}

/// Run a whole synthesis: environment overrides, then secret overrides,
/// then the defaults, then the fixed stanza.
pub fn synthesize(
    catalog: &Vec<CatalogEntry>,
    env_overrides: &Vec<(String, String)>,
    secret_overrides: &Vec<(String, String)>,
    legacy_db_exists: bool,
) -> (r: SynthOutput)
    ensures
        r.document@ == spec_document(
            cat_view(catalog@),
            ov_views(env_overrides@),
            ov_views(secret_overrides@),
            legacy_db_exists,
        ),
        str_views(r.log@) == spec_synth_state(
            cat_view(catalog@),
            ov_views(env_overrides@),
            ov_views(secret_overrides@),
            legacy_db_exists,
        ).log,
{
    let mut ctx = SynthContext::new();
    ctx.resolve_overrides(catalog, env_overrides, false);
    ctx.resolve_overrides(catalog, secret_overrides, true);
    ctx.apply_defaults(legacy_db_exists);
    let document = ctx.final_document();
    SynthOutput { document, log: ctx.log }
}

} // verus!
