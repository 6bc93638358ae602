//! The substitution-table builder: resolving one entry to an expression tree,
//! building one name-to-expression mapping per source, and the laws that hold
//! of the build.

use crate::parse::{expr_stmt_of, item_into_expr, parse_items, parse_result_of};
use crate::{global_label, make_global_label, prepare_source, prepared_source};
use vstd::prelude::*;

verus! {

/// Why resolving an entry failed. Both kinds abort the whole build: a broken
/// entry is a configuration error that must stop the build.
#[derive(Debug)]
pub enum GlobalError {
    /// The parser rejected the (possibly quoted) source text of the entry
    /// called `name`; `label` is the synthetic source identifier under which
    /// it was parsed and `diagnostic` the parser's own message.
    Parse { name: String, label: String, diagnostic: String },
    /// Parsing succeeded but the program did not end in a bare expression
    /// statement; `source` is the offending (possibly quoted) source text.
    NotAnExpression { name: String, source: String },
}

/// The mathematical shape of a [`GlobalError`].
pub enum ErrShape {
    Parse { name: Seq<char>, label: Seq<char>, diagnostic: Seq<char> },
    NotAnExpression { name: Seq<char>, source: Seq<char> },
}

impl View for GlobalError {
    type V = ErrShape;

    open spec fn view(&self) -> ErrShape {
        match self {
            GlobalError::Parse { name, label, diagnostic } => ErrShape::Parse {
                name: name@,
                label: label@,
                diagnostic: diagnostic@,
            },
            GlobalError::NotAnExpression { name, source } => ErrShape::NotAnExpression {
                name: name@,
                source: source@,
            },
        }
    }
}

/// The name of the entry that an error is about.
pub open spec fn err_name(e: ErrShape) -> Seq<char> {
    match e {
        ErrShape::Parse { name, .. } => name,
        ErrShape::NotAnExpression { name, .. } => name,
    }
}

impl GlobalError {
    /// The name of the entry this error is about.
    pub fn entry_name(&self) -> (r: &String)
        ensures
            r@ == err_name(self@),
    {
        match self {
            GlobalError::Parse { name, .. } => name,
            GlobalError::NotAnExpression { name, .. } => name,
        }
    }
}

/// What resolving one entry returns: the expression of the last top-level
/// item of the parsed (possibly quoted) source text, or the error. An
/// environment-derived raw value is first wrapped in single quotes; a
/// user-defined one is parsed as it stands.
pub open spec fn resolve_spec(name: Seq<char>, raw: Seq<char>, is_env: bool) -> Result<
    swc_ecma_ast::Expr,
    ErrShape,
> {
    let src = prepared_source(raw, is_env);
    match parse_result_of(global_label(name), src) {
        Err(d) => Err(ErrShape::Parse { name, label: global_label(name), diagnostic: d }),
        Ok(items) => {
            if items.len() == 0 {
                Err(ErrShape::NotAnExpression { name, source: src })
            } else {
                match expr_stmt_of(items.last()) {
                    Some(e) => Ok(e),
                    None => Err(ErrShape::NotAnExpression { name, source: src }),
                }
            }
        },
    }
}

/// Resolves one entry: parses its (possibly quoted) raw value under the
/// synthetic label `GLOBAL_<name>` and extracts the expression of the last
/// top-level item, failing if parsing fails or that item is not exactly a
/// bare expression statement.
pub fn resolve(name: &str, raw_value: &str, is_env: bool) -> (r: Result<
    swc_ecma_ast::Expr,
    GlobalError,
>)
    ensures
        match r {
            Ok(e) => resolve_spec(name@, raw_value@, is_env) == Ok::<swc_ecma_ast::Expr, ErrShape>(
                e,
            ),
            Err(err) => resolve_spec(name@, raw_value@, is_env) == Err::<
                swc_ecma_ast::Expr,
                ErrShape,
            >(err@),
        },
{
    let src = prepare_source(raw_value, is_env);
    let label = make_global_label(name);
    match parse_items(label.as_str(), src.as_str()) {
        Err(d) => Err(GlobalError::Parse { name: name.to_owned(), label, diagnostic: d }),
        Ok(mut items) => {
            match items.pop() {
                None => Err(GlobalError::NotAnExpression { name: name.to_owned(), source: src }),
                Some(item) => {
                    match item_into_expr(item) {
                        Some(e) => Ok(e),
                        None => Err(
                            GlobalError::NotAnExpression { name: name.to_owned(), source: src },
                        ),
                    }
                },
            }
        },
    }
}

/// One name-to-expression mapping. Entries are kept in resolution order;
/// when a name repeats, the later entry wins, as [`map_of`] states.
pub struct GlobalsMap {
    entries: Vec<(String, swc_ecma_ast::Expr)>,
}

impl View for GlobalsMap {
    type V = Seq<(Seq<char>, swc_ecma_ast::Expr)>;

    closed spec fn view(&self) -> Self::V {
        self.entries@.map_values(|p: (String, swc_ecma_ast::Expr)| (p.0@, p.1))
    }
}

/// The mapping that a sequence of (name, expression) entries denotes: each
/// name is bound to its last entry.
pub open spec fn map_of(entries: Seq<(Seq<char>, swc_ecma_ast::Expr)>) -> Map<
    Seq<char>,
    swc_ecma_ast::Expr,
>
    decreases entries.len(),
{
    if entries.len() == 0 {
        Map::empty()
    } else {
        map_of(entries.drop_last()).insert(entries.last().0, entries.last().1)
    }
}

/// In a prefix that already holds every entry with key `k`, the mapping
/// agrees with the whole sequence's mapping on `k`.
proof fn lemma_map_of_agrees_on_prefix(
    entries: Seq<(Seq<char>, swc_ecma_ast::Expr)>,
    k: Seq<char>,
    i: int,
)
    requires
        0 <= i <= entries.len(),
        forall|j: int| i <= j < entries.len() ==> (#[trigger] entries[j]).0 != k,
    ensures
        map_of(entries).contains_key(k) == map_of(entries.take(i)).contains_key(k),
        map_of(entries).contains_key(k) ==> map_of(entries)[k] == map_of(entries.take(i))[k],
    decreases entries.len() - i,
{
    if i == entries.len() {
        assert(entries.take(i) =~= entries);
    } else {
        lemma_map_of_agrees_on_prefix(entries, k, i + 1);
        assert(entries.take(i + 1).drop_last() =~= entries.take(i));
        assert(entries.take(i + 1).last() == entries[i]);
    }
}

impl GlobalsMap {
    /// The mapping this value denotes.
    pub open spec fn as_map(&self) -> Map<Seq<char>, swc_ecma_ast::Expr> {
        map_of(self@)
    }

    /// An empty mapping.
    pub fn new() -> (r: Self)
        ensures
            r@ == Seq::<(Seq<char>, swc_ecma_ast::Expr)>::empty(),
    {
        GlobalsMap { entries: Vec::new() }
    }

    /// Appends one resolved entry; if the name is already bound, the new
    /// entry shadows the old one.
    fn push(&mut self, name: String, e: swc_ecma_ast::Expr)
        ensures
            final(self)@ == old(self)@.push((name@, e)),
    {
        let ghost before = self@;
        self.entries.push((name, e));
        proof {
            assert(self@ =~= before.push((name@, e)));
        }
    }

    /// The number of entries (a name that repeats counts each time).
    pub fn len(&self) -> (n: usize)
        ensures
            n == self@.len(),
    {
        self.entries.len()
    }

    /// The name of the entry at position `i`, in resolution order.
    pub fn key_at(&self, i: usize) -> (r: &String)
        requires
            i < self@.len(),
        ensures
            r@ == self@[i as int].0,
    {
        &self.entries[i].0
    }

    /// The expression of the entry at position `i`, in resolution order.
    pub fn expr_at(&self, i: usize) -> (r: &swc_ecma_ast::Expr)
        requires
            i < self@.len(),
        ensures
            *r == self@[i as int].1,
    {
        &self.entries[i].1
    }

    /// Looks a name up: the expression it is bound to, where later entries
    /// shadow earlier ones.
    pub fn get(&self, name: &str) -> (r: Option<&swc_ecma_ast::Expr>)
        ensures
            match r {
                Some(e) => self.as_map().contains_key(name@) && *e == self.as_map()[name@],
                None => !self.as_map().contains_key(name@),
            },
    {
        let key: String = name.to_owned();
        let mut i: usize = self.entries.len();
        while i > 0
            invariant
                i <= self@.len(),
                key@ == name@,
                self@.len() == self.entries@.len(),
                forall|j: int| i <= j < self@.len() ==> (#[trigger] self@[j]).0 != name@,
            decreases i,
        {
            if self.entries[i - 1].0 == key {
                proof {
                    lemma_map_of_agrees_on_prefix(self@, name@, i as int);
                    assert(self@.take(i as int).drop_last() =~= self@.take(i as int - 1));
                    assert(self@.take(i as int).last() == self@[i as int - 1]);
                }
                return Some(&self.entries[i - 1].1);
            }
            i = i - 1;
        }
        proof {
            lemma_map_of_agrees_on_prefix(self@, name@, 0);
            assert(self@.take(0) =~= Seq::<(Seq<char>, swc_ecma_ast::Expr)>::empty());
        }
        None
    }
}

/// The view of a sequence of raw (name, value) pairs.
pub open spec fn pairs_view(v: Seq<(String, String)>) -> Seq<(Seq<char>, Seq<char>)> {
    v.map_values(|p: (String, String)| (p.0@, p.1@))
}

/// What building one mapping returns: every entry resolved in order, or the
/// first error. There is no partial result: one bad entry fails the build.
pub open spec fn build_map_spec(pairs: Seq<(Seq<char>, Seq<char>)>, is_env: bool) -> Result<
    Seq<(Seq<char>, swc_ecma_ast::Expr)>,
    ErrShape,
>
    decreases pairs.len(),
{
    if pairs.len() == 0 {
        Ok(Seq::empty())
    } else {
        match resolve_spec(pairs[0].0, pairs[0].1, is_env) {
            Err(e) => Err(e),
            Ok(x) => match build_map_spec(pairs.drop_first(), is_env) {
                Err(e) => Err(e),
                Ok(rest) => Ok(seq![(pairs[0].0, x)] + rest),
            },
        }
    }
}

/// Builds one mapping: resolves every (name, raw value) pair in order and
/// stops at the first failure.
pub fn build_entries(values: &Vec<(String, String)>, is_env: bool) -> (r: Result<
    GlobalsMap,
    GlobalError,
>)
    ensures
        match r {
            Ok(m) => build_map_spec(pairs_view(values@), is_env) == Ok::<
                Seq<(Seq<char>, swc_ecma_ast::Expr)>,
                ErrShape,
            >(m@),
            Err(e) => build_map_spec(pairs_view(values@), is_env) == Err::<
                Seq<(Seq<char>, swc_ecma_ast::Expr)>,
                ErrShape,
            >(e@),
        },
{
    let ghost pv = pairs_view(values@);
    let mut acc = GlobalsMap::new();
    let mut i: usize = 0;
    proof {
        assert(pv.skip(0) =~= pv);
        if build_map_spec(pv, is_env) is Ok {
            let rest = build_map_spec(pv, is_env)->Ok_0;
            assert(acc@ + rest =~= rest);
        }
    }
    while i < values.len()
        invariant
            i <= values@.len(),
            pv == pairs_view(values@),
            pv.len() == values@.len(),
            match build_map_spec(pv.skip(i as int), is_env) {
                Ok(rest) => build_map_spec(pv, is_env) == Ok::<
                    Seq<(Seq<char>, swc_ecma_ast::Expr)>,
                    ErrShape,
                >(acc@ + rest),
                Err(e) => build_map_spec(pv, is_env) == Err::<
                    Seq<(Seq<char>, swc_ecma_ast::Expr)>,
                    ErrShape,
                >(e),
            },
        decreases values@.len() - i,
    {
        let pair: &(String, String) = &values[i];
        proof {
            assert(pv.skip(i as int)[0] == pv[i as int]);
            assert(pv.skip(i as int).drop_first() =~= pv.skip(i as int + 1));
        }
        match resolve(pair.0.as_str(), pair.1.as_str(), is_env) {
            Err(e) => {
                return Err(e);
            },
            Ok(expr) => {
                let ghost acc_before = acc@;
                acc.push(pair.0.clone(), expr);
                proof {
                    if build_map_spec(pv.skip(i as int + 1), is_env) is Ok {
                        let rest = build_map_spec(pv.skip(i as int + 1), is_env)->Ok_0;
                        assert(acc_before + (seq![(pv[i as int].0, expr)] + rest) =~= acc@ + rest);
                    }
                }
                i = i + 1;
            },
        }
    }
    proof {
        assert(pv.skip(i as int) =~= Seq::<(Seq<char>, Seq<char>)>::empty());
        assert(acc@ + Seq::<(Seq<char>, swc_ecma_ast::Expr)>::empty() =~= acc@);
    }
    Ok(acc)
}

/// The builder's output: the mapping built from explicit configuration
/// entries and the mapping built from the environment snapshot. The two are
/// never merged; an identifier may appear in both with different expressions.
pub struct InlineGlobals {
    /// name -> parsed expression, from explicit configuration entries.
    pub globals: GlobalsMap,
    /// name -> parsed expression, from environment variables.
    pub envs: GlobalsMap,
}

/// What building the whole table returns: the configuration mapping and the
/// environment mapping, or the first error (configuration entries are
/// resolved first).
pub open spec fn build_table_spec(
    cfg: Seq<(Seq<char>, Seq<char>)>,
    env: Seq<(Seq<char>, Seq<char>)>,
) -> Result<(Seq<(Seq<char>, swc_ecma_ast::Expr)>, Seq<(Seq<char>, swc_ecma_ast::Expr)>), ErrShape> {
    match build_map_spec(cfg, false) {
        Err(e) => Err(e),
        Ok(g) => match build_map_spec(env, true) {
            Err(e) => Err(e),
            Ok(v) => Ok((g, v)),
        },
    }
}

/// Law: table building is deterministic. Given a fixed configuration and a
/// fixed environment snapshot, two results that each satisfy the builder's
/// contract are structurally identical, output and error alike.
pub proof fn lemma_build_deterministic(
    cfg: Seq<(Seq<char>, Seq<char>)>,
    env: Seq<(Seq<char>, Seq<char>)>,
    r1: Result<(Seq<(Seq<char>, swc_ecma_ast::Expr)>, Seq<(Seq<char>, swc_ecma_ast::Expr)>), ErrShape>,
    r2: Result<(Seq<(Seq<char>, swc_ecma_ast::Expr)>, Seq<(Seq<char>, swc_ecma_ast::Expr)>), ErrShape>,
)
    requires
        r1 == build_table_spec(cfg, env),
        r2 == build_table_spec(cfg, env),
    ensures
        r1 == r2,
{
}

/// Law: a resolution failure always names the entry it is about.
pub proof fn lemma_resolve_error_names_entry(name: Seq<char>, raw: Seq<char>, is_env: bool)
    ensures
        resolve_spec(name, raw, is_env) is Err ==> err_name(
            resolve_spec(name, raw, is_env)->Err_0,
        ) == name,
{
}

/// Law: building a mapping succeeds exactly when every one of its entries
/// resolves; there is no mode that skips a bad entry.
pub proof fn lemma_build_ok_iff_each_entry_ok(pairs: Seq<(Seq<char>, Seq<char>)>, is_env: bool)
    ensures
        build_map_spec(pairs, is_env) is Ok <==> (forall|i: int|
            0 <= i < pairs.len() ==> resolve_spec(
                (#[trigger] pairs[i]).0,
                pairs[i].1,
                is_env,
            ) is Ok),
    decreases pairs.len(),
{
    if pairs.len() > 0 {
        lemma_build_ok_iff_each_entry_ok(pairs.drop_first(), is_env);
        if build_map_spec(pairs, is_env) is Ok {
            assert forall|i: int|
                0 <= i < pairs.len() implies resolve_spec(
                (#[trigger] pairs[i]).0,
                pairs[i].1,
                is_env,
            ) is Ok by {
                if i > 0 {
                    assert(pairs.drop_first()[i - 1] == pairs[i]);
                }
            }
        }
        if forall|i: int|
            0 <= i < pairs.len() ==> resolve_spec((#[trigger] pairs[i]).0, pairs[i].1, is_env) is Ok {
            assert forall|j: int|
                0 <= j < pairs.drop_first().len() implies resolve_spec(
                (#[trigger] pairs.drop_first()[j]).0,
                pairs.drop_first()[j].1,
                is_env,
            ) is Ok by {
                assert(pairs.drop_first()[j] == pairs[j + 1]);
                assert(resolve_spec(pairs[j + 1].0, pairs[j + 1].1, is_env) is Ok);
            }
            assert(build_map_spec(pairs.drop_first(), is_env) is Ok);
        }
    }
}

/// Law: the build reports the first failure. If every entry before position
/// `i` resolves and the entry at `i` does not, building the mapping returns
/// exactly that entry's error, which names it.
pub proof fn lemma_build_reports_first_failure(
    pairs: Seq<(Seq<char>, Seq<char>)>,
    is_env: bool,
    i: int,
)
    requires
        0 <= i < pairs.len(),
        forall|j: int|
            0 <= j < i ==> resolve_spec((#[trigger] pairs[j]).0, pairs[j].1, is_env) is Ok,
        resolve_spec(pairs[i].0, pairs[i].1, is_env) is Err,
    ensures
        build_map_spec(pairs, is_env) == Err::<Seq<(Seq<char>, swc_ecma_ast::Expr)>, ErrShape>(
            resolve_spec(pairs[i].0, pairs[i].1, is_env)->Err_0,
        ),
        err_name(resolve_spec(pairs[i].0, pairs[i].1, is_env)->Err_0) == pairs[i].0,
    decreases i,
{
    if i == 0 {
        lemma_resolve_error_names_entry(pairs[0].0, pairs[0].1, is_env);
    } else {
        assert(forall|j: int|
            0 <= j < pairs.drop_first().len() ==> #[trigger] pairs.drop_first()[j] == pairs[j + 1]);
        lemma_build_reports_first_failure(pairs.drop_first(), is_env, i - 1);
    }
}

/// Law: on success the built entries correspond one to one with the input
/// pairs: same length, same names in the same order, and each expression is
/// the resolution of its own raw value.
pub proof fn lemma_built_entries_pointwise(
    pairs: Seq<(Seq<char>, Seq<char>)>,
    is_env: bool,
    out: Seq<(Seq<char>, swc_ecma_ast::Expr)>,
)
    requires
        build_map_spec(pairs, is_env) == Ok::<Seq<(Seq<char>, swc_ecma_ast::Expr)>, ErrShape>(out),
    ensures
        out.len() == pairs.len(),
        forall|i: int|
            0 <= i < pairs.len() ==> (#[trigger] out[i]).0 == pairs[i].0 && resolve_spec(
                pairs[i].0,
                pairs[i].1,
                is_env,
            ) == Ok::<swc_ecma_ast::Expr, ErrShape>(out[i].1),
    decreases pairs.len(),
{
    if pairs.len() > 0 {
        let rest = build_map_spec(pairs.drop_first(), is_env)->Ok_0;
        lemma_built_entries_pointwise(pairs.drop_first(), is_env, rest);
        assert(forall|j: int|
            0 <= j < pairs.drop_first().len() ==> #[trigger] pairs.drop_first()[j] == pairs[j + 1]);
        assert(forall|i: int| 0 < i < out.len() ==> #[trigger] out[i] == rest[i - 1]);
    }
}

/// Law: an environment-derived raw value is embedded as string-literal
/// source, its text wrapped in single quotes exactly as it stands, while a
/// user-defined raw value is handed to the parser unchanged.
pub proof fn lemma_env_source_is_quoted(raw: Seq<char>)
    ensures
        prepared_source(raw, true) == seq!['\''] + raw + seq!['\''],
        prepared_source(raw, false) == raw,
{
}

/// Law: resolution succeeds exactly when the (possibly quoted) source parses
/// and its last top-level item is a bare expression statement, and then the
/// resolved value is exactly that statement's expression, untouched.
pub proof fn lemma_resolve_is_last_item_expression(name: Seq<char>, raw: Seq<char>, is_env: bool)
    ensures
        resolve_spec(name, raw, is_env) is Ok <==> {
            let parsed = parse_result_of(global_label(name), prepared_source(raw, is_env));
            &&& parsed is Ok
            &&& parsed->Ok_0.len() > 0
            &&& expr_stmt_of(parsed->Ok_0.last()) is Some
        },
        resolve_spec(name, raw, is_env) is Ok ==> resolve_spec(name, raw, is_env)->Ok_0
            == expr_stmt_of(
            parse_result_of(global_label(name), prepared_source(raw, is_env))->Ok_0.last(),
        )->Some_0,
{
}

/// A mapping's domain is exactly the set of names of its entries.
proof fn lemma_map_of_domain(entries: Seq<(Seq<char>, swc_ecma_ast::Expr)>, k: Seq<char>)
    ensures
        map_of(entries).contains_key(k) <==> exists|i: int|
            0 <= i < entries.len() && (#[trigger] entries[i]).0 == k,
    decreases entries.len(),
{
    if entries.len() > 0 {
        lemma_map_of_domain(entries.drop_last(), k);
        if exists|i: int| 0 <= i < entries.drop_last().len() && (#[trigger] entries.drop_last()[i]).0
            == k {
            let i = choose|i: int|
                0 <= i < entries.drop_last().len() && (#[trigger] entries.drop_last()[i]).0 == k;
            assert(entries[i] == entries.drop_last()[i]);
        }
        if exists|i: int| 0 <= i < entries.len() && (#[trigger] entries[i]).0 == k {
            let i = choose|i: int| 0 <= i < entries.len() && (#[trigger] entries[i]).0 == k;
            if i < entries.len() - 1 {
                assert(entries.drop_last()[i] == entries[i]);
            }
        }
    }
}

/// Law: each source binds its own names. On a successful build, an
/// identifier that appears among the configuration entries is bound in
/// `globals`, and one that appears in the environment snapshot is bound in
/// `envs`; a name in both sources keeps a binding in each of the two
/// mappings, which are never merged.
pub proof fn lemma_each_source_binds_its_names(
    cfg: Seq<(Seq<char>, Seq<char>)>,
    env: Seq<(Seq<char>, Seq<char>)>,
    out_g: Seq<(Seq<char>, swc_ecma_ast::Expr)>,
    out_e: Seq<(Seq<char>, swc_ecma_ast::Expr)>,
    k: Seq<char>,
)
    requires
        build_table_spec(cfg, env) == Ok::<
            (Seq<(Seq<char>, swc_ecma_ast::Expr)>, Seq<(Seq<char>, swc_ecma_ast::Expr)>),
            ErrShape,
        >((out_g, out_e)),
    ensures
        map_of(out_g).contains_key(k) <==> exists|i: int|
            0 <= i < cfg.len() && (#[trigger] cfg[i]).0 == k,
        map_of(out_e).contains_key(k) <==> exists|i: int|
            0 <= i < env.len() && (#[trigger] env[i]).0 == k,
{
    lemma_built_entries_pointwise(cfg, false, out_g);
    lemma_built_entries_pointwise(env, true, out_e);
    lemma_map_of_domain(out_g, k);
    lemma_map_of_domain(out_e, k);
    if exists|i: int| 0 <= i < cfg.len() && (#[trigger] cfg[i]).0 == k {
        let i = choose|i: int| 0 <= i < cfg.len() && (#[trigger] cfg[i]).0 == k;
        assert((out_g[i]).0 == k);
    }
    if exists|i: int| 0 <= i < out_g.len() && (#[trigger] out_g[i]).0 == k {
        let i = choose|i: int| 0 <= i < out_g.len() && (#[trigger] out_g[i]).0 == k;
        assert((cfg[i]).0 == k);
    }
    if exists|i: int| 0 <= i < env.len() && (#[trigger] env[i]).0 == k {
        let i = choose|i: int| 0 <= i < env.len() && (#[trigger] env[i]).0 == k;
        assert((out_e[i]).0 == k);
    }
    if exists|i: int| 0 <= i < out_e.len() && (#[trigger] out_e[i]).0 == k {
        let i = choose|i: int| 0 <= i < out_e.len() && (#[trigger] out_e[i]).0 == k;
        assert((env[i]).0 == k);
    }
}

/// Law: the two sources never mix. The `globals` half of a successful table
/// is a function of the configuration entries alone, and the `envs` half a
/// function of the environment snapshot alone; an identifier present in both
/// sources keeps one independent binding in each mapping.
pub proof fn lemma_sources_never_merged(
    cfg: Seq<(Seq<char>, Seq<char>)>,
    env1: Seq<(Seq<char>, Seq<char>)>,
    env2: Seq<(Seq<char>, Seq<char>)>,
)
    requires
        build_table_spec(cfg, env1) is Ok,
        build_table_spec(cfg, env2) is Ok,
    ensures
        (build_table_spec(cfg, env1)->Ok_0).0 == (build_table_spec(cfg, env2)->Ok_0).0,
        (build_table_spec(cfg, env1)->Ok_0).0 == build_map_spec(cfg, false)->Ok_0,
        (build_table_spec(cfg, env1)->Ok_0).1 == build_map_spec(env1, true)->Ok_0,
{
}

} // verus!
