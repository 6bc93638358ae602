//! Configuration data for the preprocessing step. Everything here is plain
//! data; the only behavior is [`GlobalPassOption::build`], which turns the
//! configured globals and an environment snapshot into the substitution
//! table.

use crate::table::{
    build_entries, build_table_spec, pairs_view, ErrShape, GlobalError, InlineGlobals,
};
use vstd::prelude::*;

verus! {

/// Which dialect the host asks the parser to use for whole programs. The
/// substitution-table builder itself always parses entry values with the
/// default dialect; this field is carried for the downstream compiler.
#[derive(Clone)]
pub enum Syntax {
    Es,
    Typescript,
}

impl Syntax {
    pub open spec fn is_default(self) -> bool {
        self is Es
    }
}

impl Default for Syntax {
    fn default() -> (r: Self)
        ensures
            r.is_default(),
    {
        Syntax::Es
    }
}

/// Options for a downstream framework-specific rewrite, carried as plain
/// data; no behavior of this crate reads them.
#[derive(Clone)]
pub struct ReactOptions {
    pub pragma: String,
    pub pragma_frag: String,
    pub throw_if_namespace: bool,
    pub development: bool,
    pub use_builtins: bool,
}

impl ReactOptions {
    pub open spec fn is_default(self) -> bool {
        &&& self.pragma@ == "React.createElement"@
        &&& self.pragma_frag@ == "React.Fragment"@
        &&& self.throw_if_namespace == true
        &&& self.development == false
        &&& self.use_builtins == false
    }
}

impl Default for ReactOptions {
    fn default() -> (r: Self)
        ensures
            r.is_default(),
    {
        ReactOptions {
            pragma: String::from_str("React.createElement"),
            pragma_frag: String::from_str("React.Fragment"),
            throw_if_namespace: true,
            development: false,
            use_builtins: false,
        }
    }
}

/// The globals of the inline-globals optimization: a mapping of identifier
/// names to raw source snippets, kept in resolution order; a name that
/// repeats is resolved again and the later entry shadows the earlier one.
#[derive(Clone)]
pub struct GlobalPassOption {
    pub vars: Vec<(String, String)>,
}

impl GlobalPassOption {
    pub open spec fn is_default(self) -> bool {
        self.vars@ == Seq::<(String, String)>::empty()
    }
}

impl Default for GlobalPassOption {
    fn default() -> (r: Self)
        ensures
            r.is_default(),
    {
        GlobalPassOption { vars: Vec::new() }
    }
}

/// The optimizer section of the configuration.
#[derive(Clone)]
pub struct OptimizerConfig {
    pub globals: Option<GlobalPassOption>,
}

impl OptimizerConfig {
    pub open spec fn is_default(self) -> bool {
        self.globals is None
    }
}

impl Default for OptimizerConfig {
    fn default() -> (r: Self)
        ensures
            r.is_default(),
    {
        OptimizerConfig { globals: None }
    }
}

/// The transform section of the configuration.
#[derive(Clone)]
pub struct TrnasformConfig {
    pub react: ReactOptions,
    pub optimizer: Option<OptimizerConfig>,
}

impl TrnasformConfig {
    pub open spec fn is_default(self) -> bool {
        &&& self.react.is_default()
        &&& self.optimizer is None
    }
}

impl Default for TrnasformConfig {
    fn default() -> (r: Self)
        ensures
            r.is_default(),
    {
        TrnasformConfig { react: ReactOptions::default(), optimizer: None }
    }
}

/// The compiler-facing section of the configuration file.
#[derive(Clone)]
pub struct JscConfig {
    pub syntax: Syntax,
    pub transform: TrnasformConfig,
}

impl JscConfig {
    pub open spec fn is_default(self) -> bool {
        &&& self.syntax.is_default()
        &&& self.transform.is_default()
    }
}

impl Default for JscConfig {
    fn default() -> (r: Self)
        ensures
            r.is_default(),
    {
        JscConfig { syntax: Syntax::default(), transform: TrnasformConfig::default() }
    }
}

/// The whole configuration file.
#[derive(Clone)]
pub struct Config {
    pub jsc: JscConfig,
}

impl Config {
    pub open spec fn is_default(self) -> bool {
        self.jsc.is_default()
    }
}

impl Default for Config {
    fn default() -> (r: Self)
        ensures
            r.is_default(),
    {
        Config { jsc: JscConfig::default() }
    }
}

impl GlobalPassOption {
    /// Builds the substitution table: `globals` from the configured entries
    /// (each raw value parsed as expression source) and `envs` from the
    /// environment snapshot (each raw value quoted so that it parses as a
    /// string literal). Any entry that fails to resolve aborts the whole
    /// build with its error; no partial table is produced.
    pub fn build(self, env_vars: Vec<(String, String)>) -> (r: Result<InlineGlobals, GlobalError>)
        ensures
            match r {
                Ok(t) => build_table_spec(pairs_view(self.vars@), pairs_view(env_vars@)) == Ok::<
                    (Seq<(Seq<char>, swc_ecma_ast::Expr)>, Seq<(Seq<char>, swc_ecma_ast::Expr)>),
                    ErrShape,
                >((t.globals@, t.envs@)),
                Err(e) => build_table_spec(pairs_view(self.vars@), pairs_view(env_vars@)) == Err::<
                    (Seq<(Seq<char>, swc_ecma_ast::Expr)>, Seq<(Seq<char>, swc_ecma_ast::Expr)>),
                    ErrShape,
                >(e@),
            },
    {
        let globals = match build_entries(&self.vars, false) {
            Ok(g) => g,
            Err(e) => {
                return Err(e);
            },
        };
        let envs = match build_entries(&env_vars, true) {
            Ok(v) => v,
            Err(e) => {
                return Err(e);
            },
        };
        Ok(InlineGlobals { globals, envs })
    }
}

} // verus!
