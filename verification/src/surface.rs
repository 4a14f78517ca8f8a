//! What each output's bar shows: the primary bar with the system modules
//! and the context card, reduced bars elsewhere with a critical warning.
use vstd::prelude::*;

use crate::compare::{
    same_context, same_context_spec, same_system, same_system_spec, same_title, same_title_spec, same_warning,
    same_warning_spec, same_workspace_buttons, same_workspaces,
};
use crate::context::{
    context_presentation, context_tier, countdown_fits, icon_of, context_text_spec, tier_of,
    warning_text, ContextCard, ContextTier,
};
use crate::control_center::ControlCenterFocus;
use crate::state::{outputs_in_name_order, AppConfig, BarSnapshot, OutputRole, OutputState, WorkspaceState};
use crate::system::{build_system_cluster, button_spec, module_order, SystemCluster, SystemModuleId};
use crate::text::{owned, seq_lt};
use crate::wm::{
    blank, group_of, group_view, primary_output_spec, select_primary_output, title_for_output,
    title_spec, window_groups, WindowGroupSpec,
};

verus! {

pub const SURFACE_MARGIN: i32 = 5;

#[derive(Clone, Debug, PartialEq, Eq)]
pub struct WorkspaceButtonSpec {
    pub id: String,
    pub label: String,
    pub active: bool,
    pub urgent: bool,
}

#[derive(Clone, Debug, PartialEq, Eq)]
pub struct TitleSpec {
    pub app: String,
    pub text: String,
    pub window_groups: Vec<WindowGroupSpec>,
}

#[derive(Clone, Debug, PartialEq, Eq)]
pub struct ContextSpec {
    pub card: ContextCard,
    pub icon_name: String,
    pub text: String,
    pub tier: ContextTier,
}

#[derive(Clone, Debug, PartialEq, Eq)]
pub struct WarningSpec {
    pub text: String,
    pub tier: ContextTier,
}

#[derive(Clone, Debug, PartialEq, Eq)]
pub struct SurfaceSpec {
    pub output_name: String,
    pub role: OutputRole,
    pub workspaces: Vec<WorkspaceButtonSpec>,
    pub title: TitleSpec,
    pub context: Option<ContextSpec>,
    pub warning: Option<WarningSpec>,
    pub system: Option<SystemCluster>,
    pub clock_label: String,
}

/// Which parts of a bar have to be drawn again.
#[derive(Clone, Copy, Debug, PartialEq, Eq, Structural)]
pub struct RenderPlan {
    pub workspaces: bool,
    pub title: bool,
    pub context: bool,
    pub warning: bool,
    pub system: bool,
    pub clock: bool,
}

impl Default for RenderPlan {
    /// Nothing to draw.
    fn default() -> (r: Self)
        ensures
            r == (RenderPlan {
                workspaces: false,
                title: false,
                context: false,
                warning: false,
                system: false,
                clock: false,
            }),
    {
        RenderPlan { workspaces: false, title: false, context: false, warning: false, system: false, clock: false }
    }
}

impl RenderPlan {
    /// The parts of `next` that differ from what `previous` showed; with
    /// nothing shown before, every part.
    pub fn between(previous: Option<&SurfaceSpec>, next: &SurfaceSpec) -> (r: Self)
        ensures
            match previous {
                None => r == (RenderPlan {
                    workspaces: true,
                    title: true,
                    context: true,
                    warning: true,
                    system: true,
                    clock: true,
                }),
                Some(p) => {
                    &&& r.workspaces == !same_workspaces(p.workspaces@, next.workspaces@)
                    &&& r.title == !same_title(p.title, next.title)
                    &&& r.context == !same_context(p.context, next.context)
                    &&& r.warning == !same_warning(p.warning, next.warning)
                    &&& r.system == !same_system(p.system, next.system)
                    &&& r.clock == (p.clock_label@ != next.clock_label@)
                },
            },
    {
        match previous {
            None => RenderPlan { workspaces: true, title: true, context: true, warning: true, system: true, clock: true },
            Some(p) => RenderPlan {
                workspaces: !same_workspace_buttons(&p.workspaces, &next.workspaces),
                title: !same_title_spec(&p.title, &next.title),
                context: !same_context_spec(&p.context, &next.context),
                warning: !same_warning_spec(&p.warning, &next.warning),
                system: !same_system_spec(&p.system, &next.system),
                clock: p.clock_label != next.clock_label,
            },
        }
    }
}

// ---------------------------------------------------------------------------
// Views
// ---------------------------------------------------------------------------

/// A workspace button as plain values: id, label, active, urgent.
pub type WorkspaceView = (Seq<char>, Seq<char>, bool, bool);

pub open spec fn workspace_view(w: WorkspaceButtonSpec) -> WorkspaceView {
    (w.id@, w.label@, w.active, w.urgent)
}

pub open spec fn workspace_row(w: WorkspaceState) -> WorkspaceView {
    (w.id@, w.label@, w.active, w.urgent)
}

/// The application a bar names: the focused window's app id when it is not
/// blank, else `Desktop`.
pub open spec fn app_spec(output: OutputState) -> Seq<char> {
    match output.focused_window {
        Some(w) => match w.app_id {
            Some(a) => if blank(a@) { "Desktop"@ } else { a@ },
            None => "Desktop"@,
        },
        None => "Desktop"@,
    }
}

/// What a bar on `output` shows, whatever its role: its name, its own
/// workspaces, its application and title, every output's window group, and
/// the clock.
pub open spec fn shows_output(s: SurfaceSpec, output: OutputState, snapshot: BarSnapshot) -> bool {
    &&& s.output_name@ == output.name@
    &&& s.workspaces@.map_values(|w: WorkspaceButtonSpec| workspace_view(w))
        == output.workspaces@.map_values(|w: WorkspaceState| workspace_row(w))
    &&& s.title.app@ == app_spec(output)
    &&& s.title.text@ == title_spec(output)
    &&& s.title.window_groups@.map_values(|g: WindowGroupSpec| group_view(g))
        == snapshot.outputs@.filter_map(|o: OutputState| group_of(o))
    &&& s.clock_label@ == snapshot.system.clock.label@
}

/// The primary bar: the system modules and the selected context card.
pub open spec fn primary_surface(s: SurfaceSpec, output: OutputState, snapshot: BarSnapshot, config: AppConfig, card: Option<ContextCard>) -> bool {
    &&& shows_output(s, output, snapshot)
    &&& s.role == OutputRole::Primary
    &&& s.warning is None
    &&& match s.system {
        Some(c) => c.modules_view().len() == 6 && forall|k: int| 0 <= k < 6 ==> #[trigger] c.modules_view()[k]
            == button_spec(module_order()[k], snapshot, config),
        None => false,
    }
    &&& match (s.context, card) {
        (Some(c), Some(k)) => c.card == k && c.icon_name@ == icon_of(k) && c.text@ == context_text_spec(
            k,
            snapshot.system.clock.epoch_seconds,
        ) && c.tier == tier_of(k),
        (None, None) => true,
        _ => false,
    }
}

/// A reduced bar: no system modules, no context, a warning only for a
/// critical card.
pub open spec fn reduced_surface(s: SurfaceSpec, output: OutputState, snapshot: BarSnapshot, card: Option<ContextCard>) -> bool {
    &&& shows_output(s, output, snapshot)
    &&& s.role == OutputRole::Reduced
    &&& s.system is None
    &&& s.context is None
    &&& match (s.warning, card) {
        (Some(w), Some(k)) => tier_of(k) == ContextTier::Critical && w.tier == ContextTier::Critical && w.text@
            == context_text_spec(k, 0),
        (None, Some(k)) => tier_of(k) != ContextTier::Critical,
        (None, None) => true,
        _ => false,
    }
}

/// The first output named `name`.
pub open spec fn output_index(outputs: Seq<OutputState>, name: Seq<char>) -> int
    decreases outputs.len(),
{
    if outputs.len() == 0 {
        0
    } else if outputs[0].name@ == name {
        0
    } else {
        1 + output_index(outputs.drop_first(), name)
    }
}

// ---------------------------------------------------------------------------
// Building the bars
// ---------------------------------------------------------------------------

/// The width of a bar on a monitor `monitor_width` pixels wide: the width
/// less the margins on both sides, at least 1.
pub fn bar_window_width_for_monitor_width(monitor_width: i32) -> (w: i32)
    ensures
        w == (if monitor_width as int - 2 * SURFACE_MARGIN < 1 { 1 } else { monitor_width as int - 2
            * SURFACE_MARGIN }),
{
    let w: i32 = if monitor_width < i32::MIN + 10 { i32::MIN } else { monitor_width - 10 };
    if w < 1 {
        1
    } else {
        w
    }
}

/// The control-center page a system module opens.
pub fn control_focus(module_id: SystemModuleId) -> (f: ControlCenterFocus)
    ensures
        f == match module_id {
            SystemModuleId::Keyboard => ControlCenterFocus::Keyboard,
            SystemModuleId::Resources => ControlCenterFocus::Resources,
            SystemModuleId::Network => ControlCenterFocus::Network,
            SystemModuleId::Audio => ControlCenterFocus::Audio,
            SystemModuleId::Power => ControlCenterFocus::Power,
            SystemModuleId::Clock => ControlCenterFocus::Clock,
        },
{
    match module_id {
        SystemModuleId::Keyboard => ControlCenterFocus::Keyboard,
        SystemModuleId::Resources => ControlCenterFocus::Resources,
        SystemModuleId::Network => ControlCenterFocus::Network,
        SystemModuleId::Audio => ControlCenterFocus::Audio,
        SystemModuleId::Power => ControlCenterFocus::Power,
        SystemModuleId::Clock => ControlCenterFocus::Clock,
    }
}

fn copy_groups(groups: &Vec<WindowGroupSpec>) -> (r: Vec<WindowGroupSpec>)
    ensures
        r@.map_values(|g: WindowGroupSpec| group_view(g)) == groups@.map_values(|g: WindowGroupSpec| group_view(g)),
{
    let mut r: Vec<WindowGroupSpec> = Vec::new();
    let mut i: usize = 0;
    while i < groups.len()
        invariant
            i <= groups@.len(),
            r@.len() == i,
            forall|j: int| 0 <= j < i ==> group_view(#[trigger] r@[j]) == group_view(groups@[j]),
        decreases groups@.len() - i,
    {
        let g = &groups[i];
        let mut windows: Vec<crate::wm::WindowMenuItemSpec> = Vec::new();
        let mut k: usize = 0;
        while k < g.windows.len()
            invariant
                k <= g.windows@.len(),
                windows@.len() == k,
                forall|j: int| 0 <= j < k ==> crate::wm::item_view(#[trigger] windows@[j]) == crate::wm::item_view(
                    g.windows@[j],
                ),
            decreases g.windows@.len() - k,
        {
            let w = &g.windows[k];
            windows.push(crate::wm::WindowMenuItemSpec {
                output_name: w.output_name.clone(),
                window_id: w.window_id.clone(),
                title: w.title.clone(),
                app_id: match &w.app_id {
                    Some(a) => Some(a.clone()),
                    None => None,
                },
                focused: w.focused,
            });
            k = k + 1;
        }
        let copy = WindowGroupSpec {
            output_name: g.output_name.clone(),
            workspace_id: match &g.workspace_id {
                Some(a) => Some(a.clone()),
                None => None,
            },
            workspace_label: g.workspace_label.clone(),
            windows,
        };
        assert(copy.windows@.map_values(|x: crate::wm::WindowMenuItemSpec| crate::wm::item_view(x))
            =~= g.windows@.map_values(|x: crate::wm::WindowMenuItemSpec| crate::wm::item_view(x)));
        r.push(copy);
        i = i + 1;
    }
    assert(r@.map_values(|g: WindowGroupSpec| group_view(g)) =~= groups@.map_values(|g: WindowGroupSpec| group_view(g)));
    r
}

fn copy_card(card: &ContextCard) -> (r: ContextCard)
    ensures
        r == *card,
{
    let opt = |o: &Option<String>| -> (r: Option<String>)
        ensures
            r == *o,
        {
            match o {
                Some(s) => Some(s.clone()),
                None => None,
            }
        };
    match card {
        ContextCard::Battery { percent, charging, tier } => ContextCard::Battery {
            percent: *percent,
            charging: *charging,
            tier: *tier,
        },
        ContextCard::Calendar { id, title, location, start_epoch, tier } => ContextCard::Calendar {
            id: id.clone(),
            title: title.clone(),
            location: opt(location),
            start_epoch: *start_epoch,
            tier: *tier,
        },
        ContextCard::Timer { id, label, remaining_seconds, target_epoch, completed, tier } => ContextCard::Timer {
            id: id.clone(),
            label: label.clone(),
            remaining_seconds: *remaining_seconds,
            target_epoch: *target_epoch,
            completed: *completed,
            tier: *tier,
        },
        ContextCard::Activity { id, label, cwd, status, started_at, finished_at } => ContextCard::Activity {
            id: id.clone(),
            label: label.clone(),
            cwd: cwd.clone(),
            status: *status,
            started_at: *started_at,
            finished_at: *finished_at,
        },
        ContextCard::Media { player, title, artist } => ContextCard::Media {
            player: player.clone(),
            title: opt(title),
            artist: opt(artist),
        },
        ContextCard::Urgent { window_title, workspace, output } => ContextCard::Urgent {
            window_title: opt(window_title),
            workspace: opt(workspace),
            output: output.clone(),
        },
    }
}

fn app_name(output: &OutputState) -> (r: String)
    ensures
        r@ == app_spec(*output),
{
    if let Some(w) = &output.focused_window {
        if let Some(a) = &w.app_id {
            let v = crate::text::chars_of(a.as_str());
            if crate::text::trim_vec(&v).len() != 0 {
                return a.clone();
            }
        }
    }
    owned("Desktop")
}

fn spec_for_output(
    output: &OutputState,
    snapshot: &BarSnapshot,
    role: OutputRole,
    system: Option<SystemCluster>,
    groups: Vec<WindowGroupSpec>,
    context: Option<ContextSpec>,
    warning: Option<WarningSpec>,
) -> (s: SurfaceSpec)
    requires
        groups@.map_values(|g: WindowGroupSpec| group_view(g)) == snapshot.outputs@.filter_map(
            |o: OutputState| group_of(o),
        ),
    ensures
        shows_output(s, *output, *snapshot),
        s.role == role,
        s.system == system,
        s.context == context,
        s.warning == warning,
{
    let mut workspaces: Vec<WorkspaceButtonSpec> = Vec::new();
    let mut i: usize = 0;
    while i < output.workspaces.len()
        invariant
            i <= output.workspaces@.len(),
            workspaces@.len() == i,
            forall|j: int| 0 <= j < i ==> workspace_view(#[trigger] workspaces@[j]) == workspace_row(
                output.workspaces@[j],
            ),
        decreases output.workspaces@.len() - i,
    {
        let w = &output.workspaces[i];
        workspaces.push(WorkspaceButtonSpec { id: w.id.clone(), label: w.label.clone(), active: w.active, urgent: w.urgent });
        i = i + 1;
    }
    assert(workspaces@.map_values(|w: WorkspaceButtonSpec| workspace_view(w))
        =~= output.workspaces@.map_values(|w: WorkspaceState| workspace_row(w)));
    SurfaceSpec {
        output_name: output.name.clone(),
        role,
        workspaces,
        title: TitleSpec { app: app_name(output), text: title_for_output(output), window_groups: groups },
        context,
        warning,
        system,
        clock_label: snapshot.system.clock.label.clone(),
    }
}

/// The bars of every output: the primary bar first, then a reduced bar for
/// each other output in order. `selected_context` is the card the bar's
/// centre shows, as chosen for this snapshot.
pub fn surface_specs(snapshot: &BarSnapshot, config: &AppConfig, selected_context: Option<&ContextCard>) -> (r: Vec<SurfaceSpec>)
    requires
        match selected_context {
            Some(k) => countdown_fits(*k, snapshot.system.clock.epoch_seconds) && countdown_fits(*k, 0),
            None => true,
        },
    ensures
        ({
            let outputs = snapshot.outputs@;
            let card = match selected_context { Some(k) => Some(*k), None => None::<ContextCard> };
            match primary_output_spec(*snapshot, *config) {
                None => r@.len() == 0,
                Some(name) => {
                    let p = output_index(outputs, name);
                    let others = outputs.filter(|o: OutputState| o.name@ != name);
                    &&& 0 <= p < outputs.len() && outputs[p].name@ == name
                    &&& r@.len() == others.len() + 1
                    &&& primary_surface(r@[0], outputs[p], *snapshot, *config, card)
                    &&& forall|k: int| 0 <= k < others.len() ==> #[trigger] reduced_surface(
                        r@[k + 1],
                        others[k],
                        *snapshot,
                        card,
                    )
                },
            }
        }),
{
    let ghost card = match selected_context { Some(k) => Some(*k), None => None::<ContextCard> };
    let primary = match select_primary_output(snapshot, config) {
        Some(p) => p,
        None => return Vec::new(),
    };
    let ghost name = primary@;
    let ghost outputs = snapshot.outputs@;
    let groups = window_groups(snapshot);
    let now_epoch = snapshot.system.clock.epoch_seconds;
    let primary_context = match selected_context {
        Some(card) => {
            let presentation = context_presentation(card, now_epoch);
            Some(ContextSpec { card: copy_card(card), icon_name: presentation.icon_name, text: presentation.text, tier: presentation.tier })
        },
        None => None,
    };
    let p = output_position(&snapshot.outputs, &primary);
    proof {
        // the selected name is one of the outputs'
        if p == outputs.len() {
            if config.primary_output is Some && crate::wm::has_output(outputs, config.primary_output->0@) {
                let w = choose|w: int| 0 <= w < outputs.len() && (#[trigger] outputs[w]).name@ == config.primary_output->0@;
                assert(outputs[w].name@ != name);
            } else if snapshot.focused_output is Some && crate::wm::has_output(outputs, snapshot.focused_output->0@) {
                let w = choose|w: int| 0 <= w < outputs.len() && (#[trigger] outputs[w]).name@ == snapshot.focused_output->0@;
                assert(outputs[w].name@ != name);
            } else {
                assert(outputs[0].name@ != name);
            }
        }
    }
    let cluster = build_system_cluster(snapshot, config);
    let mut specs: Vec<SurfaceSpec> = Vec::new();
    let first = spec_for_output(
        &snapshot.outputs[p],
        snapshot,
        OutputRole::Primary,
        Some(cluster),
        copy_groups(&groups),
        primary_context,
        None,
    );
    specs.push(first);
    assert(primary_surface(specs@[0], outputs[p as int], *snapshot, *config, card));
    let warning_card: Option<&ContextCard> = match selected_context {
        Some(k) => if context_tier(k) == ContextTier::Critical { Some(k) } else { None },
        None => None,
    };
    // the reduced outputs
    let ghost pred = |o: OutputState| o.name@ != name;
    let mut i: usize = 0;
    while i < snapshot.outputs.len()
        invariant
            i <= outputs.len(),
            p < outputs.len(),
            outputs == snapshot.outputs@,
            name == primary@,
            card == (match selected_context { Some(k) => Some(*k), None => None::<ContextCard> }),
            match selected_context {
                Some(k) => countdown_fits(*k, 0),
                None => true,
            },
            warning_card == (match selected_context {
                Some(k) => if tier_of(*k) == ContextTier::Critical { Some(k) } else { None },
                None => None,
            }),
            groups@.map_values(|g: WindowGroupSpec| group_view(g)) == snapshot.outputs@.filter_map(
                |o: OutputState| group_of(o),
            ),
            pred == (|o: OutputState| o.name@ != name),
            primary_surface(specs@[0], outputs[p as int], *snapshot, *config, card),
            specs@.len() == 1 + outputs.take(i as int).filter(pred).len(),
            forall|k: int| 0 <= k < outputs.take(i as int).filter(pred).len() ==> #[trigger] reduced_surface(
                specs@[k + 1],
                outputs.take(i as int).filter(pred)[k],
                *snapshot,
                card,
            ),
        decreases outputs.len() - i,
    {
        proof {
            reveal(Seq::filter);
            assert(outputs.take(i + 1).drop_last() =~= outputs.take(i as int));
            assert(outputs.take(i + 1).last() == outputs[i as int]);
        }
        if !(snapshot.outputs[i].name == primary) {
            let warning = match warning_card {
                Some(k) => Some(WarningSpec { text: warning_text(k), tier: ContextTier::Critical }),
                None => None,
            };
            let ghost before = specs@;
            let spec = spec_for_output(
                &snapshot.outputs[i],
                snapshot,
                OutputRole::Reduced,
                None,
                copy_groups(&groups),
                None,
                warning,
            );
            specs.push(spec);
            proof {
                let f = outputs.take(i + 1).filter(pred);
                let f0 = outputs.take(i as int).filter(pred);
                assert(f == f0.push(outputs[i as int]));
                assert forall|k: int| 0 <= k < f.len() implies #[trigger] reduced_surface(specs@[k + 1], f[k], *snapshot, card) by {
                    if k < f0.len() {
                        assert(specs@[k + 1] == before[k + 1]);
                        assert(f[k] == f0[k]);
                    }
                }
            }
        }
        i = i + 1;
    }
    assert(outputs.take(outputs.len() as int) =~= outputs);
    specs
}

fn output_position(outputs: &Vec<OutputState>, name: &String) -> (p: usize)
    ensures
        p as int == output_index(outputs@, name@),
        p < outputs@.len() ==> outputs@[p as int].name@ == name@,
        p == outputs@.len() ==> forall|j: int| 0 <= j < outputs@.len() ==> (#[trigger] outputs@[j]).name@ != name@,
        p <= outputs@.len(),
{
    let mut p: usize = 0;
    assert(outputs@.skip(0) =~= outputs@);
    while p < outputs.len()
        invariant
            p <= outputs@.len(),
            output_index(outputs@, name@) == p + output_index(outputs@.skip(p as int), name@),
            forall|j: int| 0 <= j < p ==> (#[trigger] outputs@[j]).name@ != name@,
        decreases outputs@.len() - p,
    {
        assert(outputs@.skip(p as int)[0] == outputs@[p as int]);
        assert(outputs@.skip(p as int).drop_first() =~= outputs@.skip(p + 1));
        if outputs[p].name == *name {
            return p;
        }
        p = p + 1;
    }
    assert(outputs@.skip(p as int).len() == 0);
    p
}

/// Every output but the one named `name`, in output order.
pub open spec fn other_outputs(outputs: Seq<OutputState>, name: Seq<char>) -> Seq<OutputState> {
    outputs.filter(|o: OutputState| o.name@ != name)
}

/// With the outputs in name order, the reduced bars (every output but the
/// primary one, in output order) also come in strictly increasing name
/// order, each for a connected output.
pub proof fn reduced_bars_follow_output_names(outputs: Seq<OutputState>, name: Seq<char>)
    requires
        outputs_in_name_order(outputs),
    ensures
        outputs_in_name_order(other_outputs(outputs, name)),
        forall|i: int|
            0 <= i < other_outputs(outputs, name).len() ==> exists|k: int|
                0 <= k < outputs.len() && #[trigger] other_outputs(outputs, name)[i] == outputs[k],
    decreases outputs.len(),
{
    let pred = |o: OutputState| o.name@ != name;
    reveal(Seq::filter);
    if outputs.len() > 0 {
        let front = outputs.drop_last();
        assert forall|i: int, j: int| 0 <= i < j < front.len() implies seq_lt(
            #[trigger] front[i].name@,
            #[trigger] front[j].name@,
        ) by {
            assert(front[i] == outputs[i] && front[j] == outputs[j]);
        }
        reduced_bars_follow_output_names(front, name);
        let f = other_outputs(front, name);
        assert forall|i: int| 0 <= i < f.len() implies exists|k: int|
            0 <= k < outputs.len() - 1 && #[trigger] f[i] == outputs[k] by {
            let k = choose|k: int| 0 <= k < front.len() && other_outputs(front, name)[i] == front[k];
            assert(front[k] == outputs[k]);
        }
        if pred(outputs.last()) {
            let g = f.push(outputs.last());
            assert(other_outputs(outputs, name) == g);
            assert forall|i: int, j: int| 0 <= i < j < g.len() implies seq_lt(#[trigger] g[i].name@, #[trigger] g[j].name@) by {
                assert(g[i] == f[i]);
                if j < f.len() {
                    assert(g[j] == f[j]);
                } else {
                    let k = choose|k: int| 0 <= k < outputs.len() - 1 && f[i] == outputs[k];
                    assert(seq_lt(outputs[k].name@, outputs[outputs.len() - 1].name@));
                }
            }
            assert forall|i: int| 0 <= i < g.len() implies exists|k: int| 0 <= k < outputs.len() && #[trigger] g[i]
                == outputs[k] by {
                if i < f.len() {
                    let k = choose|k: int| 0 <= k < outputs.len() - 1 && f[i] == outputs[k];
                    assert(g[i] == outputs[k]);
                } else {
                    assert(g[i] == outputs[outputs.len() - 1]);
                }
            }
        } else {
            assert(other_outputs(outputs, name) == f);
        }
    } else {
        assert(other_outputs(outputs, name) =~= outputs);
    }
}

} // verus!
