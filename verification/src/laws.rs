//! Properties of the synthesis pipeline as a whole: what unmatched
//! overrides cannot do, determinism, the precedence between overrides and
//! defaults, masking, and the database default.

use vstd::prelude::*;
use crate::catalog::SpecCatalogEntry;
use crate::catalog::spec_lookup;
use crate::names::spec_sensitive;
use crate::synth::SpecEntry;
use crate::synth::SpecSynth;
use crate::synth::entry_names;
use crate::synth::spec_empty_state;
use crate::synth::spec_set;
use crate::synth::spec_resolve_one;
use crate::synth::spec_resolve;
use crate::synth::spec_apply_defaults;
use crate::synth::spec_synth_state;
use crate::synth::spec_document;
use crate::synth::spec_log_line;
use crate::synth::spec_db_default;
use crate::synth::spec_mask;
use crate::synth::lemma_entry_names_push;

verus! {

/// Whether some entry resolves the named option from a built-in default.
pub open spec fn has_default_entry(entries: Seq<SpecEntry>, name: Seq<char>) -> bool {
    exists|i: int| 0 <= i < entries.len() && entries[i].name == name && entries[i].is_default
}

/// Whether the name is one of the five built-in default options.
pub open spec fn is_default_name(name: Seq<char>) -> bool {
    name == "database"@ || name == "ice"@ || name == "welcometext"@ || name == "port"@ || name
        == "users"@
}

/// The state the run reaches after resolving all overrides and before the
/// defaults are applied.
pub open spec fn spec_overrides_state(
    cat: Seq<SpecCatalogEntry>,
    env: Seq<(Seq<char>, Seq<char>)>,
    secrets: Seq<(Seq<char>, Seq<char>)>,
) -> SpecSynth {
    spec_resolve(spec_resolve(spec_empty_state(), cat, env, false), cat, secrets, true)
}

pub broadcast proof fn lemma_names_contains_push(s: Seq<SpecEntry>, e: SpecEntry, x: Seq<char>)
    ensures
        #[trigger] entry_names(s.push(e)).contains(x) == (entry_names(s).contains(x) || e.name
            == x),
{
    lemma_entry_names_push(s, e);
    if entry_names(s).contains(x) {
        let i = choose|i: int| 0 <= i < entry_names(s).len() && entry_names(s)[i] == x;
        assert(entry_names(s.push(e))[i] == x);
    }
    if e.name == x {
        assert(entry_names(s.push(e))[s.len() as int] == x);
    }
    if entry_names(s.push(e)).contains(x) {
        let i = choose|i: int|
            0 <= i < entry_names(s.push(e)).len() && entry_names(s.push(e))[i] == x;
        if i < s.len() {
            assert(entry_names(s)[i] == x);
        }
    }
}

pub broadcast proof fn lemma_default_entry_push(s: Seq<SpecEntry>, e: SpecEntry, x: Seq<char>)
    ensures
        #[trigger] has_default_entry(s.push(e), x) == (has_default_entry(s, x) || (e.name == x
            && e.is_default)),
{
    if has_default_entry(s, x) {
        let i = choose|i: int| 0 <= i < s.len() && s[i].name == x && s[i].is_default;
        assert(s.push(e)[i] == s[i]);
    }
    if e.name == x && e.is_default {
        assert(s.push(e)[s.len() as int] == e);
    }
    if has_default_entry(s.push(e), x) {
        let i = choose|i: int|
            0 <= i < s.push(e).len() && s.push(e)[i].name == x && s.push(e)[i].is_default;
        if i < s.len() {
            assert(s[i] == s.push(e)[i]);
        }
    }
}

/// An override whose identifier matches no catalog entry resolves
/// nothing: the document's entries are unchanged; only a log notice is
/// added.
pub proof fn lemma_unmatched_override_dropped(
    st: SpecSynth,
    cat: Seq<SpecCatalogEntry>,
    ov: (Seq<char>, Seq<char>),
    from_secret: bool,
)
    requires
        spec_lookup(cat, ov.0) is None,
    ensures
        spec_resolve_one(st, cat, ov, from_secret).entries == st.entries,
        spec_resolve_one(st, cat, ov, from_secret).log == st.log.push(
            crate::synth::spec_notice(ov.0, from_secret),
        ),
{
}

/// A run none of whose overrides matches the catalog resolves nothing
/// before the defaults: the entries are exactly those already present.
pub proof fn lemma_all_unmatched_dropped(
    st: SpecSynth,
    cat: Seq<SpecCatalogEntry>,
    ovs: Seq<(Seq<char>, Seq<char>)>,
    from_secret: bool,
)
    requires
        forall|i: int| 0 <= i < ovs.len() ==> spec_lookup(cat, (#[trigger] ovs[i]).0) is None,
    ensures
        spec_resolve(st, cat, ovs, from_secret).entries == st.entries,
    decreases ovs.len(),
{
    if ovs.len() > 0 {
        let st1 = spec_resolve_one(st, cat, ovs[0], from_secret);
        assert(st1.entries == st.entries);
        assert(forall|i: int|
            0 <= i < ovs.drop_first().len() ==> (#[trigger] ovs.drop_first()[i]) == ovs[i + 1]);
        lemma_all_unmatched_dropped(st1, cat, ovs.drop_first(), from_secret);
    }
}

/// Resolving a concatenated override list is resolving its parts in turn.
pub proof fn lemma_resolve_append(
    st: SpecSynth,
    cat: Seq<SpecCatalogEntry>,
    a: Seq<(Seq<char>, Seq<char>)>,
    b: Seq<(Seq<char>, Seq<char>)>,
    from_secret: bool,
)
    ensures
        spec_resolve(st, cat, a + b, from_secret) == spec_resolve(
            spec_resolve(st, cat, a, from_secret),
            cat,
            b,
            from_secret,
        ),
    decreases a.len(),
{
    if a.len() == 0 {
        assert(a + b =~= b);
        assert(spec_resolve(st, cat, a, from_secret) == st);
    } else {
        assert((a + b)[0] == a[0]);
        assert((a + b).drop_first() =~= a.drop_first() + b);
        lemma_resolve_append(
            spec_resolve_one(st, cat, a[0], from_secret),
            cat,
            a.drop_first(),
            b,
            from_secret,
        );
    }
}

/// Which options a list of overrides resolves depends only on the options
/// already resolved, never on the log.
pub proof fn lemma_resolve_entries_from_entries(
    st1: SpecSynth,
    st2: SpecSynth,
    cat: Seq<SpecCatalogEntry>,
    ovs: Seq<(Seq<char>, Seq<char>)>,
    from_secret: bool,
)
    requires
        st1.entries == st2.entries,
    ensures
        spec_resolve(st1, cat, ovs, from_secret).entries == spec_resolve(
            st2,
            cat,
            ovs,
            from_secret,
        ).entries,
    decreases ovs.len(),
{
    if ovs.len() > 0 {
        let n1 = spec_resolve_one(st1, cat, ovs[0], from_secret);
        let n2 = spec_resolve_one(st2, cat, ovs[0], from_secret);
        assert(n1.entries == n2.entries);
        lemma_resolve_entries_from_entries(n1, n2, cat, ovs.drop_first(), from_secret);
    }
}

/// Which defaults a run applies depends only on the options already
/// resolved, never on the log.
pub proof fn lemma_defaults_entries_from_entries(
    st1: SpecSynth,
    st2: SpecSynth,
    legacy_db_exists: bool,
)
    requires
        st1.entries == st2.entries,
    ensures
        spec_apply_defaults(st1, legacy_db_exists).entries == spec_apply_defaults(
            st2,
            legacy_db_exists,
        ).entries,
{
}

/// An environment override whose identifier matches no catalog entry
/// never appears in the output document: the run's document is the one of
/// the same run with that override left out.
pub proof fn lemma_unmatched_override_absent_from_document(
    cat: Seq<SpecCatalogEntry>,
    env: Seq<(Seq<char>, Seq<char>)>,
    secrets: Seq<(Seq<char>, Seq<char>)>,
    legacy_db_exists: bool,
    i: int,
)
    requires
        0 <= i < env.len(),
        spec_lookup(cat, env[i].0) is None,
    ensures
        spec_document(cat, env, secrets, legacy_db_exists) == spec_document(
            cat,
            env.remove(i),
            secrets,
            legacy_db_exists,
        ),
{
    let a = env.take(i);
    let b = env.skip(i + 1);
    assert(env =~= a + (seq![env[i]] + b));
    assert(env.remove(i) =~= a + b);
    let st_a = spec_resolve(spec_empty_state(), cat, a, false);
    lemma_resolve_append(spec_empty_state(), cat, a, seq![env[i]] + b, false);
    lemma_resolve_append(spec_empty_state(), cat, a, b, false);
    let st_skip = spec_resolve_one(st_a, cat, env[i], false);
    assert((seq![env[i]] + b)[0] == env[i]);
    assert((seq![env[i]] + b).drop_first() =~= b);
    assert(spec_resolve(st_a, cat, seq![env[i]] + b, false) == spec_resolve(
        st_skip,
        cat,
        b,
        false,
    ));
    assert(st_skip.entries == st_a.entries);
    lemma_resolve_entries_from_entries(st_skip, st_a, cat, b, false);
    let with_st = spec_resolve(spec_resolve(spec_empty_state(), cat, env, false), cat, secrets, true);
    let without_st = spec_resolve(
        spec_resolve(spec_empty_state(), cat, env.remove(i), false),
        cat,
        secrets,
        true,
    );
    lemma_resolve_entries_from_entries(
        spec_resolve(spec_empty_state(), cat, env, false),
        spec_resolve(spec_empty_state(), cat, env.remove(i), false),
        cat,
        secrets,
        true,
    );
    lemma_defaults_entries_from_entries(with_st, without_st, legacy_db_exists);
}

/// Synthesis is a function of the catalog, the collected overrides, and
/// the legacy-database flag alone: equal inputs give byte-identical
/// documents and identical logs.
pub proof fn lemma_synthesis_deterministic(
    cat1: Seq<SpecCatalogEntry>,
    env1: Seq<(Seq<char>, Seq<char>)>,
    secrets1: Seq<(Seq<char>, Seq<char>)>,
    legacy1: bool,
    cat2: Seq<SpecCatalogEntry>,
    env2: Seq<(Seq<char>, Seq<char>)>,
    secrets2: Seq<(Seq<char>, Seq<char>)>,
    legacy2: bool,
)
    requires
        cat1 == cat2,
        env1 == env2,
        secrets1 == secrets2,
        legacy1 == legacy2,
    ensures
        spec_document(cat1, env1, secrets1, legacy1) == spec_document(
            cat2,
            env2,
            secrets2,
            legacy2,
        ),
        spec_synth_state(cat1, env1, secrets1, legacy1).log == spec_synth_state(
            cat2,
            env2,
            secrets2,
            legacy2,
        ).log,
{
}

/// The log line for a sensitive option shows the fixed mask in place of
/// the value and does not depend on the value at all.
pub proof fn lemma_sensitive_log_masked(name: Seq<char>, v1: Seq<char>, v2: Seq<char>)
    requires
        spec_sensitive(name),
    ensures
        spec_log_line(name, v1) == "Setting config \""@ + name + "\" to: "@ + spec_mask(),
        spec_log_line(name, v1) == spec_log_line(name, v2),
{
}

/// Every entry resolved from overrides is a non-default entry.
pub proof fn lemma_resolve_non_default(
    st: SpecSynth,
    cat: Seq<SpecCatalogEntry>,
    ovs: Seq<(Seq<char>, Seq<char>)>,
    from_secret: bool,
)
    requires
        forall|i: int| 0 <= i < st.entries.len() ==> !(#[trigger] st.entries[i]).is_default,
    ensures
        forall|i: int|
            0 <= i < spec_resolve(st, cat, ovs, from_secret).entries.len() ==> !(
            #[trigger] spec_resolve(st, cat, ovs, from_secret).entries[i]).is_default,
    decreases ovs.len(),
{
    if ovs.len() > 0 {
        let st1 = spec_resolve_one(st, cat, ovs[0], from_secret);
        assert forall|i: int| 0 <= i < st1.entries.len() implies !(
        #[trigger] st1.entries[i]).is_default by {
            if i < st.entries.len() {
                assert(!st.entries[i].is_default);
            }
        }
        lemma_resolve_non_default(st1, cat, ovs.drop_first(), from_secret);
        assert(spec_resolve(st, cat, ovs, from_secret) == spec_resolve(
            st1,
            cat,
            ovs.drop_first(),
            from_secret,
        ));
    }
}

/// A default is applied if and only if no override resolved that
/// canonical option in the same run.
pub proof fn lemma_default_applied_iff(st: SpecSynth, legacy_db_exists: bool, dname: Seq<char>)
    requires
        is_default_name(dname),
        forall|i: int| 0 <= i < st.entries.len() ==> !(#[trigger] st.entries[i]).is_default,
    ensures
        has_default_entry(spec_apply_defaults(st, legacy_db_exists).entries, dname)
            <==> !entry_names(st.entries).contains(dname),
{
    broadcast use lemma_names_contains_push, lemma_default_entry_push;

    reveal_strlit("database");
    reveal_strlit("ice");
    reveal_strlit("welcometext");
    reveal_strlit("port");
    reveal_strlit("users");
    assert(!has_default_entry(st.entries, dname)) by {
        if has_default_entry(st.entries, dname) {
            let i = choose|i: int|
                0 <= i < st.entries.len() && st.entries[i].name == dname
                    && st.entries[i].is_default;
        }
    }
    let st1 = spec_set(st, "database"@, spec_db_default(legacy_db_exists), true);
    let st2 = spec_set(st1, "ice"@, "\"tcp -h 127.0.0.1 -p 6502\""@, true);
    let st3 = spec_set(st2, "welcometext"@, crate::synth::spec_welcome(), true);
    let st4 = spec_set(st3, "port"@, "64738"@, true);
    let st5 = spec_set(st4, "users"@, "100"@, true);
    assert(spec_apply_defaults(st, legacy_db_exists) == st5);
}

/// If no override resolved the `database` option, the run applies the
/// database default directly after the overrides: the legacy database
/// file when it exists on disk, the new default file otherwise.
pub proof fn lemma_database_default(st: SpecSynth, legacy_db_exists: bool)
    requires
        !entry_names(st.entries).contains("database"@),
    ensures
        spec_apply_defaults(st, legacy_db_exists).entries.len() > st.entries.len(),
        spec_apply_defaults(st, legacy_db_exists).entries[st.entries.len() as int] == (SpecEntry {
            name: "database"@,
            value: spec_db_default(legacy_db_exists),
            is_default: true,
        }),
{
    let e1 = SpecEntry {
        name: "database"@,
        value: spec_db_default(legacy_db_exists),
        is_default: true,
    };
    let st1 = spec_set(st, "database"@, spec_db_default(legacy_db_exists), true);
    assert(st1.entries == st.entries.push(e1));
    assert(st1.entries[st.entries.len() as int] == e1);
    let st2 = spec_set(st1, "ice"@, "\"tcp -h 127.0.0.1 -p 6502\""@, true);
    let st3 = spec_set(st2, "welcometext"@, crate::synth::spec_welcome(), true);
    let st4 = spec_set(st3, "port"@, "64738"@, true);
    let st5 = spec_set(st4, "users"@, "100"@, true);
    assert(st5.entries[st.entries.len() as int] == e1);
}

/// A default is applied in a full run if and only if no override for that
/// canonical option was resolved in the same run.
pub proof fn lemma_default_applied_iff_run(
    cat: Seq<SpecCatalogEntry>,
    env: Seq<(Seq<char>, Seq<char>)>,
    secrets: Seq<(Seq<char>, Seq<char>)>,
    legacy_db_exists: bool,
    dname: Seq<char>,
)
    requires
        is_default_name(dname),
    ensures
        has_default_entry(spec_synth_state(cat, env, secrets, legacy_db_exists).entries, dname)
            <==> !entry_names(spec_overrides_state(cat, env, secrets).entries).contains(dname),
{
    let st0 = spec_resolve(spec_empty_state(), cat, env, false);
    lemma_resolve_non_default(spec_empty_state(), cat, env, false);
    lemma_resolve_non_default(st0, cat, secrets, true);
    lemma_default_applied_iff(spec_overrides_state(cat, env, secrets), legacy_db_exists, dname);
}

} // verus!
