//! Settings of a workbook.

use crate::value::DateSystem;
use vstd::prelude::*;

verus! {

/// What becomes of a formula text that does not parse.
#[derive(Clone, Copy, Debug, PartialEq, Eq, Structural)]
pub enum FormulaParsePolicy {
    /// It is refused.
    Strict,
    /// Its cell shows an error.
    CoerceToError,
}

/// Whether runs of like formulas are evaluated as spans.
#[derive(Clone, Copy, Debug, PartialEq, Eq, Structural)]
pub enum FormulaPlaneMode {
    Off,
    AuthoritativeExperimental,
}

/// Settings of the engine. Those that the workbook neither reads nor sets are in
/// `settings`.
#[derive(Clone, Debug)]
pub struct EvalConfig<S> {
    pub defer_graph_building: bool,
    pub formula_parse_policy: FormulaParsePolicy,
    pub formula_plane_mode: FormulaPlaneMode,
    pub arrow_storage_enabled: bool,
    pub delta_overlay_enabled: bool,
    pub write_formula_overlay_enabled: bool,
    pub date_system: DateSystem,
    pub settings: S,
}

/// The engine's own choice for each setting, with `settings` for the rest.
pub open spec fn default_eval_config<S>(settings: S) -> EvalConfig<S> {
    EvalConfig {
        defer_graph_building: false,
        formula_parse_policy: FormulaParsePolicy::Strict,
        formula_plane_mode: FormulaPlaneMode::Off,
        arrow_storage_enabled: true,
        delta_overlay_enabled: true,
        write_formula_overlay_enabled: true,
        date_system: DateSystem::Excel1900,
        settings,
    }
}

impl<S: Default> Default for EvalConfig<S> {
    fn default() -> (c: EvalConfig<S>)
        ensures
            c == default_eval_config(c.settings),
            call_ensures(S::default, (), c.settings),
    {
        EvalConfig {
            defer_graph_building: false,
            formula_parse_policy: FormulaParsePolicy::Strict,
            formula_plane_mode: FormulaPlaneMode::Off,
            arrow_storage_enabled: true,
            delta_overlay_enabled: true,
            write_formula_overlay_enabled: true,
            date_system: DateSystem::Excel1900,
            settings: S::default(),
        }
    }
}

/// How a workbook is meant to be used.
#[derive(Clone, Copy, Debug, PartialEq, Eq, Structural)]
pub enum WorkbookMode {
    /// Fast path, on a par with direct use of the engine.
    Ephemeral,
    /// Default: change log and deferred graph building.
    Interactive,
}

/// Settings of a workbook.
#[derive(Clone, Debug)]
pub struct WorkbookConfig<S, L> {
    pub eval: EvalConfig<S>,
    pub enable_changelog: bool,
    pub ingest_limits: L,
}

/// The settings of [`WorkbookMode::Ephemeral`].
pub open spec fn ephemeral_config<S, L>(settings: S, limits: L) -> WorkbookConfig<S, L> {
    WorkbookConfig {
        eval: default_eval_config(settings),
        enable_changelog: false,
        ingest_limits: limits,
    }
}

/// The settings of [`WorkbookMode::Interactive`].
pub open spec fn interactive_config<S, L>(settings: S, limits: L) -> WorkbookConfig<S, L> {
    WorkbookConfig {
        eval: EvalConfig {
            defer_graph_building: true,
            formula_parse_policy: FormulaParsePolicy::CoerceToError,
            ..default_eval_config(settings)
        },
        enable_changelog: true,
        ingest_limits: limits,
    }
}

/// The settings of a mode.
pub open spec fn mode_config<S, L>(mode: WorkbookMode, settings: S, limits: L) -> WorkbookConfig<
    S,
    L,
> {
    match mode {
        WorkbookMode::Ephemeral => ephemeral_config(settings, limits),
        WorkbookMode::Interactive => interactive_config(settings, limits),
    }
}

/// The plane mode that span evaluation stands for.
pub open spec fn plane_mode(span_evaluation: bool) -> FormulaPlaneMode {
    if span_evaluation {
        FormulaPlaneMode::AuthoritativeExperimental
    } else {
        FormulaPlaneMode::Off
    }
}

/// `config` with the plane mode `mode`.
pub open spec fn config_with_plane_mode<S, L>(
    config: WorkbookConfig<S, L>,
    mode: FormulaPlaneMode,
) -> WorkbookConfig<S, L> {
    WorkbookConfig {
        eval: EvalConfig { formula_plane_mode: mode, ..config.eval },
        ..config
    }
}

/// The settings that a workbook is made with: it always keeps its values in the
/// column store, takes edits into the overlay and lays formula results there.
pub open spec fn workbook_eval_config<S>(eval: EvalConfig<S>) -> EvalConfig<S> {
    EvalConfig {
        arrow_storage_enabled: true,
        delta_overlay_enabled: true,
        write_formula_overlay_enabled: true,
        ..eval
    }
}

impl<S: Default, L: Default> WorkbookConfig<S, L> {
    /// No change log, formulas built at once, parse errors refused.
    pub fn ephemeral() -> (c: WorkbookConfig<S, L>)
        ensures
            c == ephemeral_config::<S, L>(c.eval.settings, c.ingest_limits),
            call_ensures(S::default, (), c.eval.settings),
            call_ensures(L::default, (), c.ingest_limits),
    {
        WorkbookConfig {
            eval: EvalConfig::default(),
            enable_changelog: false,
            ingest_limits: L::default(),
        }
    }

    /// Change log, formulas staged, parse errors shown in the cell.
    pub fn interactive() -> (c: WorkbookConfig<S, L>)
        ensures
            c == interactive_config::<S, L>(c.eval.settings, c.ingest_limits),
            call_ensures(S::default, (), c.eval.settings),
            call_ensures(L::default, (), c.ingest_limits),
    {
        let mut eval: EvalConfig<S> = EvalConfig::default();
        eval.defer_graph_building = true;
        eval.formula_parse_policy = FormulaParsePolicy::CoerceToError;
        WorkbookConfig { eval, enable_changelog: true, ingest_limits: L::default() }
    }

    /// The settings of `mode`.
    pub fn for_mode(mode: WorkbookMode) -> (c: WorkbookConfig<S, L>)
        ensures
            c == mode_config::<S, L>(mode, c.eval.settings, c.ingest_limits),
            call_ensures(S::default, (), c.eval.settings),
            call_ensures(L::default, (), c.ingest_limits),
    {
        match mode {
            WorkbookMode::Ephemeral => WorkbookConfig::ephemeral(),
            WorkbookMode::Interactive => WorkbookConfig::interactive(),
        }
    }
}

impl<S, L> WorkbookConfig<S, L> {
    /// The same settings with `ingest_limits` in place of their limits.
    pub fn with_ingest_limits(self, ingest_limits: L) -> (c: WorkbookConfig<S, L>)
        ensures
            c == (WorkbookConfig { ingest_limits, ..self }),
    {
        let mut config = self;
        config.ingest_limits = ingest_limits;
        config
    }

    /// Switches the evaluation of formula spans, an experiment that is off by
    /// default.
    pub fn with_span_evaluation(self, enabled: bool) -> (c: WorkbookConfig<S, L>)
        ensures
            c == config_with_plane_mode(self, plane_mode(enabled)),
    {
        let mut config = self;
        config.eval.formula_plane_mode = if enabled {
            FormulaPlaneMode::AuthoritativeExperimental
        } else {
            FormulaPlaneMode::Off
        };
        config
    }

    /// The same settings with the plane mode `mode`.
    pub fn with_formula_plane_mode(self, mode: FormulaPlaneMode) -> (c: WorkbookConfig<S, L>)
        ensures
            c == config_with_plane_mode(self, mode),
    {
        let mut config = self;
        config.eval.formula_plane_mode = mode;
        config
    }

    /// Whether formula spans are evaluated.
    pub fn span_evaluation_enabled(&self) -> (r: bool)
        ensures
            r == (self.eval.formula_plane_mode == FormulaPlaneMode::AuthoritativeExperimental),
    {
        self.eval.formula_plane_mode == FormulaPlaneMode::AuthoritativeExperimental
    }
}

/// Span evaluation is what it was last switched to, and is off in every mode until
/// it is switched on; switching it changes nothing else.
pub proof fn law_span_evaluation<S, L>(
    config: WorkbookConfig<S, L>,
    enabled: bool,
    mode: WorkbookMode,
    settings: S,
    limits: L,
)
    ensures
        (config_with_plane_mode(config, plane_mode(enabled)).eval.formula_plane_mode
            == FormulaPlaneMode::AuthoritativeExperimental) == enabled,
        config_with_plane_mode(
            config_with_plane_mode(config, plane_mode(enabled)),
            config.eval.formula_plane_mode,
        ) == config,
        mode_config(mode, settings, limits).eval.formula_plane_mode == FormulaPlaneMode::Off,
{
}

} // verus!
