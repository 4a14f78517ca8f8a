//! Which output carries the primary bar, what title an output shows, and the
//! window menu's groups.
use vstd::prelude::*;

use crate::state::{outputs_in_name_order, AppConfig, BarSnapshot, OutputState, WindowState, WorkspaceState};
use crate::text::{chars_of, owned, seq_lt, trim, trim_vec};

verus! {

#[derive(Clone, Debug, PartialEq, Eq)]
pub struct WindowGroupSpec {
    pub output_name: String,
    pub workspace_id: Option<String>,
    pub workspace_label: String,
    pub windows: Vec<WindowMenuItemSpec>,
}

#[derive(Clone, Debug, PartialEq, Eq)]
pub struct WindowMenuItemSpec {
    pub output_name: String,
    pub window_id: String,
    pub title: String,
    pub app_id: Option<String>,
    pub focused: bool,
}

/// A menu item as plain values: output, window id, title, app id, focused.
pub type ItemView = (Seq<char>, Seq<char>, Seq<char>, Option<Seq<char>>, bool);

/// A group as plain values: output, workspace id, workspace label, items.
pub type GroupView = (Seq<char>, Option<Seq<char>>, Seq<char>, Seq<ItemView>);

pub open spec fn opt_chars(o: Option<String>) -> Option<Seq<char>> {
    match o {
        Some(s) => Some(s@),
        None => None,
    }
}

pub open spec fn item_view(i: WindowMenuItemSpec) -> ItemView {
    (i.output_name@, i.window_id@, i.title@, opt_chars(i.app_id), i.focused)
}

pub open spec fn group_view(g: WindowGroupSpec) -> GroupView {
    (g.output_name@, opt_chars(g.workspace_id), g.workspace_label@, g.windows@.map_values(|i: WindowMenuItemSpec| item_view(i)))
}

// ---------------------------------------------------------------------------
// Specification
// ---------------------------------------------------------------------------

/// Whether `s` is empty once white space is trimmed.
pub open spec fn blank(s: Seq<char>) -> bool {
    trim(s).len() == 0
}

pub open spec fn has_output(outputs: Seq<OutputState>, name: Seq<char>) -> bool {
    exists|i: int| 0 <= i < outputs.len() && (#[trigger] outputs[i]).name@ == name
}

/// The configured primary output when it is connected, else the focused
/// output when it is connected, else the first output by name.
pub open spec fn primary_output_spec(snapshot: BarSnapshot, config: AppConfig) -> Option<Seq<char>> {
    let outputs = snapshot.outputs@;
    if config.primary_output matches Some(p) && has_output(outputs, p@) {
        Some(config.primary_output->0@)
    } else if snapshot.focused_output matches Some(f) && has_output(outputs, f@) {
        Some(snapshot.focused_output->0@)
    } else if outputs.len() > 0 {
        Some(outputs[0].name@)
    } else {
        None
    }
}

/// The first active workspace.
pub open spec fn first_active(ws: Seq<WorkspaceState>) -> Option<WorkspaceState>
    decreases ws.len(),
{
    if ws.len() == 0 {
        None
    } else if ws[0].active {
        Some(ws[0])
    } else {
        first_active(ws.drop_first())
    }
}

/// The workspace an output shows: the first active one, else the first.
pub open spec fn shown_workspace(ws: Seq<WorkspaceState>) -> Option<WorkspaceState> {
    match first_active(ws) {
        Some(w) => Some(w),
        None => if ws.len() > 0 { Some(ws[0]) } else { None },
    }
}

/// The label of the shown workspace, else the output's name.
pub open spec fn workspace_label_spec(output: OutputState) -> Seq<char> {
    match shown_workspace(output.workspaces@) {
        Some(w) => w.label@,
        None => output.name@,
    }
}

/// The focused window's title, else its app id, else the workspace label.
pub open spec fn title_spec(output: OutputState) -> Seq<char> {
    match output.focused_window {
        Some(w) => if !blank(w.title@) {
            w.title@
        } else if w.app_id matches Some(a) && !blank(a@) {
            w.app_id->0@
        } else {
            workspace_label_spec(output)
        },
        None => workspace_label_spec(output),
    }
}

/// The title a menu item shows: the window's title, else its app id, else
/// `Window`.
pub open spec fn item_title(w: WindowState) -> Seq<char> {
    if !blank(w.title@) {
        w.title@
    } else {
        match w.app_id {
            Some(a) => a@,
            None => "Window"@,
        }
    }
}

/// The group of an output that has a focused window.
pub open spec fn group_of(output: OutputState) -> Option<GroupView> {
    match output.focused_window {
        Some(w) => Some((
            output.name@,
            match shown_workspace(output.workspaces@) {
                Some(ws) => Some(ws.id@),
                None => None,
            },
            workspace_label_spec(output),
            seq![(output.name@, w.id@, item_title(w), opt_chars(w.app_id), true)],
        )),
        None => None,
    }
}

// ---------------------------------------------------------------------------
// Implementation
// ---------------------------------------------------------------------------

fn is_blank(s: &str) -> (r: bool)
    ensures
        r == blank(s@),
{
    let v = chars_of(s);
    trim_vec(&v).len() == 0
}

fn has_output_named(outputs: &Vec<OutputState>, name: &String) -> (r: bool)
    ensures
        r == has_output(outputs@, name@),
{
    let mut i: usize = 0;
    while i < outputs.len()
        invariant
            i <= outputs@.len(),
            forall|j: int| 0 <= j < i ==> (#[trigger] outputs@[j]).name@ != name@,
        decreases outputs@.len() - i,
    {
        if outputs[i].name == *name {
            return true;
        }
        i = i + 1;
    }
    false
}

/// The name of the output that carries the primary bar.
pub fn select_primary_output(snapshot: &BarSnapshot, config: &AppConfig) -> (r: Option<String>)
    ensures
        opt_chars(r) == primary_output_spec(*snapshot, *config),
{
    if let Some(p) = &config.primary_output {
        if has_output_named(&snapshot.outputs, p) {
            return Some(p.clone());
        }
    }
    if let Some(f) = &snapshot.focused_output {
        if has_output_named(&snapshot.outputs, f) {
            return Some(f.clone());
        }
    }
    if snapshot.outputs.len() > 0 {
        Some(snapshot.outputs[0].name.clone())
    } else {
        None
    }
}

fn shown_workspace_index(ws: &Vec<WorkspaceState>) -> (r: Option<usize>)
    ensures
        match r {
            Some(i) => i < ws@.len() && shown_workspace(ws@) == Some(ws@[i as int]),
            None => shown_workspace(ws@) is None,
        },
{
    let mut i: usize = 0;
    assert(ws@.skip(0) =~= ws@);
    while i < ws.len()
        invariant
            i <= ws@.len(),
            first_active(ws@) == first_active(ws@.skip(i as int)),
        decreases ws@.len() - i,
    {
        assert(ws@.skip(i as int).drop_first() =~= ws@.skip(i + 1));
        if ws[i].active {
            return Some(i);
        }
        i = i + 1;
    }
    assert(ws@.skip(i as int).len() == 0);
    if ws.len() > 0 {
        Some(0)
    } else {
        None
    }
}

fn workspace_label(output: &OutputState) -> (r: String)
    ensures
        r@ == workspace_label_spec(*output),
{
    match shown_workspace_index(&output.workspaces) {
        Some(i) => output.workspaces[i].label.clone(),
        None => output.name.clone(),
    }
}

/// The title an output's bar shows.
pub fn title_for_output(output: &OutputState) -> (r: String)
    ensures
        r@ == title_spec(*output),
{
    if let Some(window) = &output.focused_window {
        if !is_blank(window.title.as_str()) {
            return window.title.clone();
        }
        if let Some(app_id) = &window.app_id {
            if !is_blank(app_id.as_str()) {
                return app_id.clone();
            }
        }
    }
    workspace_label(output)
}

fn clone_opt(o: &Option<String>) -> (r: Option<String>)
    ensures
        opt_chars(r) == opt_chars(*o),
{
    match o {
        Some(s) => Some(s.clone()),
        None => None,
    }
}

fn group_for(output: &OutputState, window: &WindowState) -> (g: WindowGroupSpec)
    requires
        output.focused_window == Some(*window),
    ensures
        group_of(*output) == Some(group_view(g)),
{
    let shown = shown_workspace_index(&output.workspaces);
    let workspace_id = match shown {
        Some(i) => Some(output.workspaces[i].id.clone()),
        None => None,
    };
    let workspace_label = workspace_label(output);
    let title = if is_blank(window.title.as_str()) {
        match &window.app_id {
            Some(a) => a.clone(),
            None => owned("Window"),
        }
    } else {
        window.title.clone()
    };
    let item = WindowMenuItemSpec {
        output_name: output.name.clone(),
        window_id: window.id.clone(),
        title,
        app_id: clone_opt(&window.app_id),
        focused: true,
    };
    let mut windows: Vec<WindowMenuItemSpec> = Vec::new();
    windows.push(item);
    let g = WindowGroupSpec { output_name: output.name.clone(), workspace_id, workspace_label, windows };
    assert(g.windows@.map_values(|i: WindowMenuItemSpec| item_view(i)) =~= seq![item_view(item)]);
    g
}

/// One group per output that has a focused window, in output order.
pub fn window_groups(snapshot: &BarSnapshot) -> (r: Vec<WindowGroupSpec>)
    ensures
        r@.map_values(|g: WindowGroupSpec| group_view(g))
            == snapshot.outputs@.filter_map(|o: OutputState| group_of(o)),
{
    let outputs = &snapshot.outputs;
    let mut r: Vec<WindowGroupSpec> = Vec::new();
    let mut i: usize = 0;
    while i < outputs.len()
        invariant
            i <= outputs@.len(),
            outputs@ == snapshot.outputs@,
            r@.map_values(|g: WindowGroupSpec| group_view(g))
                == outputs@.take(i as int).filter_map(|o: OutputState| group_of(o)),
        decreases outputs@.len() - i,
    {
        proof {
            outputs@.lemma_filter_map_take_succ(|o: OutputState| group_of(o), i as int);
        }
        if let Some(window) = &outputs[i].focused_window {
            let g = group_for(&outputs[i], window);
            r.push(g);
        }
        assert(r@.map_values(|g: WindowGroupSpec| group_view(g))
            =~= outputs@.take(i + 1).filter_map(|o: OutputState| group_of(o)));
        i = i + 1;
    }
    assert(outputs@.take(outputs@.len() as int) =~= outputs@);
    r
}

// ---------------------------------------------------------------------------
// Laws over snapshots in name order
// ---------------------------------------------------------------------------

/// With the outputs in name order, the primary bar goes to the configured
/// output when it is connected, else to the focused one when it is
/// connected, else to the output with the least name; there is none exactly
/// when no output is connected, and the chosen one is always connected.
pub proof fn primary_output_falls_back_to_the_least_name(snapshot: BarSnapshot, config: AppConfig)
    requires
        snapshot.wf(),
    ensures
        (primary_output_spec(snapshot, config) is None) == (snapshot.outputs@.len() == 0),
        (primary_output_spec(snapshot, config) matches Some(n) ==> has_output(snapshot.outputs@, n)),
        ({
            let configured = match config.primary_output {
                Some(p) => has_output(snapshot.outputs@, p@),
                None => false,
            };
            let focused = match snapshot.focused_output {
                Some(f) => has_output(snapshot.outputs@, f@),
                None => false,
            };
            !configured && !focused && snapshot.outputs@.len() > 0 ==> (primary_output_spec(snapshot, config) matches Some(
                n,
            ) && forall|i: int|
                0 <= i < snapshot.outputs@.len() ==> (#[trigger] snapshot.outputs@[i]).name@ == n || seq_lt(
                    n,
                    snapshot.outputs@[i].name@,
                ))
        }),
{
    let outputs = snapshot.outputs@;
    if outputs.len() > 0 {
        assert(has_output(outputs, outputs[0].name@));
        assert forall|i: int| 0 <= i < outputs.len() implies (#[trigger] outputs[i]).name@ == outputs[0].name@
            || seq_lt(outputs[0].name@, outputs[i].name@) by {
            if i > 0 {
                assert(seq_lt(outputs[0].name@, outputs[i].name@));
            }
        }
    }
}

/// The window menu's groups: one per output with a focused window, in
/// output order.
pub open spec fn menu_groups(outputs: Seq<OutputState>) -> Seq<GroupView> {
    outputs.filter_map(|o: OutputState| group_of(o))
}

/// Each menu group is the group of one of the
/// outputs, and with the outputs in name order the groups come in
/// strictly increasing output-name order.
proof fn lemma_groups_in_order(outputs: Seq<OutputState>)
    requires
        outputs_in_name_order(outputs),
    ensures
        forall|i: int|
            0 <= i < menu_groups(outputs).len() ==> exists|k: int|
                0 <= k < outputs.len() && (#[trigger] menu_groups(outputs)[i]).0
                    == outputs[k].name@,
        forall|i: int, j: int|
            0 <= i < j < menu_groups(outputs).len() ==> seq_lt(
                (#[trigger] menu_groups(outputs)[i]).0,
                (#[trigger] menu_groups(outputs)[j]).0,
            ),
    decreases outputs.len(),
{
    if outputs.len() > 0 {
        let front = outputs.drop_last();
        assert forall|i: int, j: int| 0 <= i < j < front.len() implies seq_lt(
            #[trigger] front[i].name@,
            #[trigger] front[j].name@,
        ) by {
            assert(front[i] == outputs[i] && front[j] == outputs[j]);
        }
        lemma_groups_in_order(front);
        let f = menu_groups(front);
        let g = menu_groups(outputs);
        let last = outputs.last();
        assert forall|i: int| 0 <= i < f.len() implies exists|k: int|
            0 <= k < outputs.len() - 1 && (#[trigger] f[i]).0 == outputs[k].name@ by {
            let k = choose|k: int| 0 <= k < front.len() && f[i].0 == front[k].name@;
            assert(front[k] == outputs[k]);
        }
        match group_of(last) {
            Some(x) => {
                assert(g == f + seq![x]);
                assert(x.0 == last.name@);
                assert forall|i: int| 0 <= i < g.len() implies exists|k: int|
                    0 <= k < outputs.len() && (#[trigger] g[i]).0 == outputs[k].name@ by {
                    if i < f.len() {
                        assert(g[i] == f[i]);
                        let k = choose|k: int| 0 <= k < outputs.len() - 1 && f[i].0 == outputs[k].name@;
                    } else {
                        assert(g[i] == x);
                        assert(g[i].0 == outputs[outputs.len() - 1].name@);
                    }
                }
                assert forall|i: int, j: int| 0 <= i < j < g.len() implies seq_lt(
                    (#[trigger] g[i]).0,
                    (#[trigger] g[j]).0,
                ) by {
                    assert(g[i] == f[i]);
                    if j < f.len() {
                        assert(g[j] == f[j]);
                    } else {
                        assert(g[j] == x);
                        let k = choose|k: int| 0 <= k < outputs.len() - 1 && f[i].0 == outputs[k].name@;
                        assert(seq_lt(outputs[k].name@, outputs[outputs.len() - 1].name@));
                    }
                }
            },
            None => {
                assert(g == f);
                assert forall|i: int| 0 <= i < g.len() implies exists|k: int|
                    0 <= k < outputs.len() && (#[trigger] g[i]).0 == outputs[k].name@ by {
                    let k = choose|k: int| 0 <= k < outputs.len() - 1 && f[i].0 == outputs[k].name@;
                }
            },
        }
    }
}

/// With the outputs in name order, the window menu's groups come in
/// strictly increasing output-name order, each for a connected output.
pub proof fn window_groups_follow_output_names(snapshot: BarSnapshot)
    requires
        snapshot.wf(),
    ensures
        forall|i: int, j: int|
            0 <= i < j < menu_groups(snapshot.outputs@).len() ==> seq_lt(
                (#[trigger] menu_groups(snapshot.outputs@)[i]).0,
                (#[trigger] menu_groups(snapshot.outputs@)[j]).0,
            ),
        forall|i: int|
            0 <= i < menu_groups(snapshot.outputs@).len() ==> has_output(
                snapshot.outputs@,
                (#[trigger] menu_groups(snapshot.outputs@)[i]).0,
            ),
{
    lemma_groups_in_order(snapshot.outputs@);
    let g = menu_groups(snapshot.outputs@);
    assert forall|i: int| 0 <= i < g.len() implies has_output(snapshot.outputs@, (#[trigger] g[i]).0) by {
        let k = choose|k: int| 0 <= k < snapshot.outputs@.len() && g[i].0 == snapshot.outputs@[k].name@;
    }
}

} // verus!
