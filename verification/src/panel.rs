//! The panel: which module is selected, how the modules are laid out in
//! columns, and what each key does.
use vstd::prelude::*;

use crate::module_trait::{effective_interval, PanelModule};
use crate::number::{decimal_spec, int_decimal_spec, push_decimal, push_int_decimal};
use crate::registry::ModuleRegistry;
use crate::text::{push_str, string_of};

verus! {

/// How many columns the modules are laid out in.
#[derive(Debug, Clone, Copy, PartialEq, Eq, Structural)]
pub enum LayoutMode {
    Single,
    Double,
    Triple,
}

impl LayoutMode {
    pub open spec fn spec_next(self) -> LayoutMode {
        match self {
            LayoutMode::Single => LayoutMode::Double,
            LayoutMode::Double => LayoutMode::Triple,
            LayoutMode::Triple => LayoutMode::Single,
        }
    }

    pub open spec fn spec_columns(self) -> usize {
        match self {
            LayoutMode::Single => 1,
            LayoutMode::Double => 2,
            LayoutMode::Triple => 3,
        }
    }

    /// The next layout: one, two, three columns, then one again.
    pub fn next(&self) -> (r: LayoutMode)
        ensures
            r == self.spec_next(),
    {
        match self {
            LayoutMode::Single => LayoutMode::Double,
            LayoutMode::Double => LayoutMode::Triple,
            LayoutMode::Triple => LayoutMode::Single,
        }
    }

    /// The number of columns.
    pub fn columns(&self) -> (r: usize)
        ensures
            r == self.spec_columns(),
            1 <= r <= 3,
    {
        match self {
            LayoutMode::Single => 1,
            LayoutMode::Double => 2,
            LayoutMode::Triple => 3,
        }
    }
}

/// Three steps of `next` come back to the same layout.
pub proof fn law_layout_cycle(m: LayoutMode)
    ensures
        m.spec_next().spec_next().spec_next() == m,
        m.spec_next() != m,
{
}

/// A key that the panel reacts to.
#[derive(Debug, Clone, Copy, PartialEq, Eq, Structural)]
pub enum Key {
    Esc,
    Up,
    Down,
    Left,
    Right,
    PageUp,
    PageDown,
    Char(char),
    Other,
}

/// What the program around the panel is to do after a key.
#[derive(Debug, Clone, PartialEq, Eq)]
pub enum PanelCommand {
    /// Nothing beyond the panel's own change.
    Nothing,
    /// Update every listed module.
    RefreshAll,
    /// Update the module with this id.
    Refresh(String),
}

/// Where one module goes in the module area.
#[derive(Debug, Clone, Copy, PartialEq, Eq, Structural)]
pub struct ModuleSlot {
    /// The module's listed position.
    pub position: usize,
    /// Its height in rows, borders included.
    pub height: u16,
    /// Whether it is the selected module.
    pub selected: bool,
}

/// One column of the module area.
#[derive(Debug)]
pub struct ColumnPlan {
    /// The column's share of the width, in percent.
    pub percent: u16,
    /// Its modules, top to bottom.
    pub modules: Vec<ModuleSlot>,
}

/// What the module area shows.
#[derive(Debug)]
pub enum ModulesView {
    /// No module is registered.
    NoModules,
    /// Every module is hidden.
    AllHidden,
    /// The shown modules, in columns.
    Columns(Vec<ColumnPlan>),
}

/// The sum of `s`.
pub open spec fn sum_weights(s: Seq<u16>) -> int
    decreases s.len(),
{
    if s.len() == 0 {
        0
    } else {
        sum_weights(s.drop_last()) + s.last()
    }
}

/// The listed positions whose modules are shown, in order.
pub open spec fn shown_positions<M: PanelModule>(reg: &ModuleRegistry<M>) -> Seq<int> {
    Seq::new(reg.listed().len(), |i: int| i).filter(|i: int| shown_at(reg, i))
}

/// The panel's state apart from its modules.
pub struct PanelView {
    pub running: bool,
    pub status: Seq<char>,
    pub current: int,
    pub layout: LayoutMode,
    pub weights: Seq<u16>,
    pub show_about: bool,
    pub show_settings: bool,
    pub cursor: int,
    pub deltas: Seq<i16>,
    pub theme: int,
}

/// The main panel.
pub struct Panel<M> {
    registry: ModuleRegistry<M>,
    running: bool,
    status_message: String,
    current_module_idx: usize,
    layout_mode: LayoutMode,
    column_weights: Vec<u16>,
    show_about: bool,
    show_settings: bool,
    settings_cursor: usize,
    module_height_deltas: Vec<i16>,
    theme_index: usize,
}

/// The most entries a `Vec` of 2-byte height offsets can hold: a `Vec`
/// spans at most `isize::MAX` bytes, which is `usize::MAX / 4` such entries.
/// Every list the panel keeps (the offsets, the order of ids, the modules)
/// has elements at least that large, so none can grow past this.
pub const MAX_MODULES: usize = usize::MAX / 4;

/// The modules per column for `len` modules in `cols` columns.
pub open spec fn per_column(len: int, cols: int) -> int {
    (len + cols - 1) / cols
}

/// Whether listed position `i` holds a shown module.
pub open spec fn shown_at<M: PanelModule>(reg: &ModuleRegistry<M>, i: int) -> bool {
    0 <= i < reg.listed().len() && reg.visible_of(reg.listed()[i])
}

/// The nearest shown position before `from`.
pub open spec fn prev_shown<M: PanelModule>(reg: &ModuleRegistry<M>, from: int) -> Option<int>
    decreases from,
{
    if from <= 0 {
        None
    } else if shown_at(reg, from - 1) {
        Some(from - 1)
    } else {
        prev_shown(reg, from - 1)
    }
}

/// The first shown position at or after `i` and before `len`.
pub open spec fn next_shown_from<M: PanelModule>(reg: &ModuleRegistry<M>, i: int, len: int) -> Option<
    int,
>
    decreases len - i,
{
    if i >= len {
        None
    } else if shown_at(reg, i) {
        Some(i)
    } else {
        next_shown_from(reg, i + 1, len)
    }
}

/// The target of a move to the neighbouring column, keeping the row where
/// that column is long enough, else its last module.
pub open spec fn horizontal_target(from: int, dir: int, cols: int, mpc: int, len: int) -> Option<
    int,
> {
    let cur_col = from / mpc;
    let row = from % mpc;
    if dir > 0 && cur_col + 1 >= cols {
        None
    } else if dir <= 0 && cur_col == 0 {
        None
    } else {
        let target = if dir > 0 { cur_col + 1 } else { cur_col - 1 };
        let start = target * mpc;
        let end = if start + mpc < len { start + mpc } else { len };
        if start >= len {
            None
        } else {
            Some(if start + row < end - 1 { start + row } else { end - 1 })
        }
    }
}

/// The selection `cur` moved off a hidden module: to the next shown one,
/// else the previous shown one.
pub open spec fn adjusted_index<M: PanelModule>(reg: &ModuleRegistry<M>, cur: int, len: int) -> int {
    if 0 <= cur < reg.listed().len() && !reg.visible_of(reg.listed()[cur]) {
        match next_shown_from(reg, cur + 1, len) {
            Some(i) => i,
            None => match prev_shown(reg, cur) {
                Some(i) => i,
                None => cur,
            },
        }
    } else {
        cur
    }
}

pub open spec fn clamp(v: int, lo: int, hi: int) -> int {
    if v < lo {
        lo
    } else if v > hi {
        hi
    } else {
        v
    }
}

/// `n` weights of 10.
fn tens(n: usize) -> (r: Vec<u16>)
    ensures
        r@ == Seq::new(n as nat, |i: int| 10u16),
{
    let mut w: Vec<u16> = Vec::new();
    let mut i: usize = 0;
    while i < n
        invariant
            i <= n,
            w@ == Seq::new(i as nat, |j: int| 10u16),
        decreases n - i,
    {
        w.push(10);
        i = i + 1;
        assert(w@ =~= Seq::new(i as nat, |j: int| 10u16));
    }
    w
}

impl<M: PanelModule> View for Panel<M> {
    type V = PanelView;

    closed spec fn view(&self) -> PanelView {
        PanelView {
            running: self.running,
            status: self.status_message@,
            current: self.current_module_idx as int,
            layout: self.layout_mode,
            weights: self.column_weights@,
            show_about: self.show_about,
            show_settings: self.show_settings,
            cursor: self.settings_cursor as int,
            deltas: self.module_height_deltas@,
            theme: self.theme_index as int,
        }
    }
}

impl<M: PanelModule> Panel<M> {
    /// The modules.
    pub closed spec fn reg(&self) -> ModuleRegistry<M> {
        self.registry
    }

    /// The number of registered modules.
    pub open spec fn len(&self) -> int {
        self.reg().id_set().len() as int
    }

    /// What the panel keeps true between calls.
    pub open spec fn wf(&self) -> bool {
        &&& self.reg().wf()
        &&& self.len() <= MAX_MODULES
        &&& self@.weights.len() == self@.layout.spec_columns()
        &&& forall|i: int| 0 <= i < self@.weights.len() ==> 3 <= #[trigger] self@.weights[i] <= 20
        &&& self@.deltas.len() >= self.len()
        &&& self@.deltas.len() <= MAX_MODULES
        &&& self.reg().order_ids().len() <= MAX_MODULES
        &&& (self@.deltas.len() > 0 ==> self.len() > 0)
        &&& forall|i: int| 0 <= i < self@.deltas.len() ==> -5 <= #[trigger] self@.deltas[i] <= 10
        &&& (self@.current == 0 || self@.current < self.len())
    }

    /// The modules per column in the current layout.
    pub open spec fn mpc(&self) -> int {
        per_column(self.len(), self@.layout.spec_columns() as int)
    }

    /// The name of the module at listed position `pos`, or "无".
    pub open spec fn name_at(&self, pos: int) -> Seq<char> {
        if 0 <= pos < self.reg().listed().len() {
            self.reg().module_of(self.reg().listed()[pos]).spec_name()
        } else {
            "无"@
        }
    }

    pub fn new() -> (r: Self)
        ensures
            r.wf(),
            r.len() == 0,
            forall|k: Seq<char>| !#[trigger] r.reg().has(k),
            r.reg().order_ids().len() == 0,
            r@.running,
            r@.status.len() == 0,
            r@.current == 0,
            r@.layout == LayoutMode::Single,
            r@.weights == seq![10u16],
            !r@.show_about,
            !r@.show_settings,
            r@.cursor == 0,
            r@.deltas.len() == 0,
            r@.theme == 0,
    {
        let mut w: Vec<u16> = Vec::new();
        w.push(10);
        let r = Panel {
            registry: ModuleRegistry::new(),
            running: true,
            status_message: String::new(),
            current_module_idx: 0,
            layout_mode: LayoutMode::Single,
            column_weights: w,
            show_about: false,
            show_settings: false,
            settings_cursor: 0,
            module_height_deltas: Vec::new(),
            theme_index: 0,
        };
        assert(r@.weights =~= seq![10u16]);
        assert(r.reg().id_set().len() == 0);
        assert forall|k: Seq<char>| !#[trigger] r.reg().has(k) by {
            if r.reg().has(k) {
                assert(r.reg().id_set().contains(k));
            }
        }
        r
    }

    /// Registers a module, shown, at the end of the order, with no height
    /// offset.
    pub fn register_module(&mut self, module: M)
        requires
            old(self).wf(),
            old(self)@.deltas.len() < MAX_MODULES,
            old(self).reg().order_ids().len() < MAX_MODULES,
        ensures
            final(self).wf(),
            ModuleRegistry::<M>::registered(&old(self).reg(), &final(self).reg(), module.spec_id(), module),
            final(self).len() == old(self).len() + (if old(self).reg().has(module.spec_id()) {
                0int
            } else {
                1int
            }),
            !old(self).reg().order_ids().contains(module.spec_id()) ==> final(self).reg().listed()
                == old(self).reg().listed().push(module.spec_id()),
            final(self)@ == (PanelView { deltas: old(self)@.deltas.push(0), ..old(self)@ }),
    {
        let ghost pre = self.registry;
        self.registry.register(module);
        proof {
            crate::registry::law_register_then_lookup(&pre, &self.registry, module.spec_id(), module);
            if !pre.order_ids().contains(module.spec_id()) {
                crate::registry::lemma_listed_after_register(&pre, &self.registry, module.spec_id(), module);
            }
        }
        self.module_height_deltas.push(0);
        proof {
            assert(self@.deltas =~= old(self)@.deltas.push(0));
        }
    }

    /// The module registered under `id`, to update; the rest of the panel
    /// stays as it is.
    pub fn module_mut(&mut self, id: &str) -> (r: Option<&mut M>)
        requires
            old(self).wf(),
        ensures
            final(self).wf(),
            final(self)@ == old(self)@,
            match r {
                Some(m) => {
                    &&& old(self).reg().has(id@)
                    &&& *m == old(self).reg().module_of(id@)
                    &&& ModuleRegistry::<M>::module_replaced(
                        &old(self).reg(),
                        &final(self).reg(),
                        id@,
                        *final(m),
                    )
                },
                None => !old(self).reg().has(id@) && final(self).reg() == old(self).reg(),
            },
    {
        match self.registry.get_mut_by_id(id) {
            Some((_, m)) => Some(m),
            None => None,
        }
    }

    /// The number of registered modules.
    pub fn module_count(&self) -> (r: usize)
        requires
            self.wf(),
        ensures
            r == self.len(),
    {
        self.registry.len()
    }

    /// The modules, to read.
    pub fn registry(&self) -> (r: &ModuleRegistry<M>)
        ensures
            *r == self.reg(),
    {
        &self.registry
    }

    /// The panel's state.
    pub fn is_running(&self) -> (r: bool)
        ensures
            r == self@.running,
    {
        self.running
    }

    pub fn status_message(&self) -> (r: &str)
        ensures
            r@ == self@.status,
    {
        self.status_message.as_str()
    }

    pub fn current_module_idx(&self) -> (r: usize)
        ensures
            r == self@.current,
    {
        self.current_module_idx
    }

    pub fn layout_mode(&self) -> (r: LayoutMode)
        ensures
            r == self@.layout,
    {
        self.layout_mode
    }

    pub fn column_weights(&self) -> (r: &Vec<u16>)
        ensures
            r@ == self@.weights,
    {
        &self.column_weights
    }

    pub fn show_about(&self) -> (r: bool)
        ensures
            r == self@.show_about,
    {
        self.show_about
    }

    pub fn show_settings(&self) -> (r: bool)
        ensures
            r == self@.show_settings,
    {
        self.show_settings
    }

    pub fn settings_cursor(&self) -> (r: usize)
        ensures
            r == self@.cursor,
    {
        self.settings_cursor
    }

    pub fn module_height_deltas(&self) -> (r: &Vec<i16>)
        ensures
            r@ == self@.deltas,
    {
        &self.module_height_deltas
    }

    pub fn theme_index(&self) -> (r: usize)
        ensures
            r == self@.theme,
    {
        self.theme_index
    }

    /// The modules per column: the module count divided by the columns,
    /// rounded up.
    pub fn modules_per_column(&self) -> (r: usize)
        requires
            self.wf(),
        ensures
            r == self.mpc(),
            self.len() > 0 ==> r > 0,
            r <= self.len(),
    {
        let len = self.registry.len();
        let cols = self.layout_mode.columns();
        (len + cols - 1) / cols
    }

    /// The nearest shown module before position `from`.
    pub fn visible_prev(&self, from: usize) -> (r: Option<usize>)
        requires
            self.wf(),
        ensures
            match r {
                Some(i) => prev_shown(&self.reg(), from as int) == Some(i as int),
                None => prev_shown(&self.reg(), from as int) is None,
            },
    {
        let mut i = from;
        while i > 0
            invariant
                i <= from,
                self.wf(),
                prev_shown(&self.reg(), from as int) == prev_shown(&self.reg(), i as int),
            decreases i,
        {
            i = i - 1;
            match self.registry.listed_id(i) {
                Some(id) => {
                    if self.registry.is_visible(id.as_str()) {
                        return Some(i);
                    }
                },
                None => {},
            }
        }
        None
    }

    /// The nearest shown module after position `from`, before the module count.
    pub fn visible_next(&self, from: usize) -> (r: Option<usize>)
        requires
            self.wf(),
            from < usize::MAX,
        ensures
            match r {
                Some(i) => next_shown_from(&self.reg(), from + 1, self.len()) == Some(i as int),
                None => next_shown_from(&self.reg(), from + 1, self.len()) is None,
            },
    {
        let len = self.registry.len();
        let mut i = from;
        loop
            invariant
                self.wf(),
                len == self.len(),
                i >= from,
                next_shown_from(&self.reg(), from + 1, self.len()) == next_shown_from(
                    &self.reg(),
                    i + 1,
                    self.len(),
                ),
            decreases len - i,
        {
            if len == 0 || i >= len - 1 {
                return None;
            }
            i = i + 1;
            match self.registry.listed_id(i) {
                Some(id) => {
                    if self.registry.is_visible(id.as_str()) {
                        return Some(i);
                    }
                },
                None => {},
            }
        }
    }

    /// The target of a move to the column left (`direction <= 0`) or right.
    pub fn navigate_horizontal(&self, from_idx: usize, direction: i8) -> (r: Option<usize>)
        requires
            self.wf(),
            from_idx < self.len(),
        ensures
            match r {
                Some(i) => horizontal_target(
                    from_idx as int,
                    direction as int,
                    self@.layout.spec_columns() as int,
                    self.mpc(),
                    self.len(),
                ) == Some(i as int) && i < self.len(),
                None => horizontal_target(
                    from_idx as int,
                    direction as int,
                    self@.layout.spec_columns() as int,
                    self.mpc(),
                    self.len(),
                ) is None,
            },
    {
        let cols = self.layout_mode.columns();
        let mpc = self.modules_per_column();
        let len = self.registry.len();
        let cur_col = from_idx / mpc;
        let row = from_idx % mpc;
        proof {
            let l = len as int;
            let c = cols as int;
            let m = mpc as int;
            assert(m == (l + c - 1) / c);
            assert(l <= c * m) by (nonlinear_arith)
                requires
                    m == (l + c - 1) / c,
                    c >= 1,
                    l >= 0,
            ;
            assert((from_idx as int) / m < c) by (nonlinear_arith)
                requires
                    from_idx < l,
                    l <= c * m,
                    m > 0,
            ;
        }
        let target_col = if direction > 0 {
            if cur_col + 1 >= cols {
                return None;
            }
            cur_col + 1
        } else {
            if cur_col == 0 {
                return None;
            }
            cur_col - 1
        };
        assert(target_col * mpc <= 3 * mpc) by (nonlinear_arith)
            requires
                target_col < 3,
        ;
        let start = target_col * mpc;
        let end = if start + mpc < len { start + mpc } else { len };
        if start >= len {
            return None;
        }
        Some(if start + row < end - 1 { start + row } else { end - 1 })
    }

    /// The name of the selected module, or "无" when there is none.
    pub fn get_current_module_name(&self) -> (r: String)
        requires
            self.wf(),
        ensures
            r@ == self.name_at(self@.current),
    {
        match self.registry.module_at(self.current_module_idx) {
            Some(m) => m.name().to_owned(),
            None => "无".to_owned(),
        }
    }

    /// The selection after `adjust_current_visible`: a hidden selected module
    /// gives way to the next shown one, else the previous shown one.
    pub open spec fn visible_adjusted(&self) -> int {
        adjusted_index(&self.reg(), self@.current, self.len())
    }

    proof fn lemma_next_shown_bound(reg: &ModuleRegistry<M>, i: int, len: int)
        ensures
            next_shown_from(reg, i, len) matches Some(j) ==> i <= j < len,
        decreases len - i,
    {
        if i < len && !shown_at(reg, i) {
            Self::lemma_next_shown_bound(reg, i + 1, len);
        }
    }

    proof fn lemma_prev_shown_bound(reg: &ModuleRegistry<M>, from: int)
        ensures
            prev_shown(reg, from) matches Some(j) ==> 0 <= j < from,
        decreases from,
    {
        if from > 0 && !shown_at(reg, from - 1) {
            Self::lemma_prev_shown_bound(reg, from - 1);
        }
    }

    /// Moves the selection off a hidden module.
    pub fn adjust_current_visible(&mut self)
        requires
            old(self).wf(),
        ensures
            final(self).wf(),
            final(self).reg() == old(self).reg(),
            final(self)@ == (PanelView { current: old(self).visible_adjusted(), ..old(self)@ }),
    {
        match self.registry.listed_id(self.current_module_idx) {
            Some(id) => {
                if !self.registry.is_visible(id.as_str()) {
                    proof {
                        Self::lemma_next_shown_bound(&self.reg(), self@.current + 1, self.len());
                        Self::lemma_prev_shown_bound(&self.reg(), self@.current);
                    }
                    let cur = self.current_module_idx;
                    if cur < usize::MAX {
                        match self.visible_next(cur) {
                            Some(idx) => {
                                self.current_module_idx = idx;
                                return ;
                            },
                            None => {},
                        }
                    }
                    match self.visible_prev(cur) {
                        Some(idx) => {
                            self.current_module_idx = idx;
                        },
                        None => {},
                    }
                }
            },
            None => {},
        }
    }

    /// Resets the column weights to 10 for each column of the layout.
    pub fn adjust_column_weights(&mut self)
        requires
            old(self).wf(),
        ensures
            final(self).wf(),
            final(self).reg() == old(self).reg(),
            final(self)@ == (PanelView {
                weights: Seq::new(old(self)@.layout.spec_columns() as nat, |i: int| 10u16),
                ..old(self)@
            }),
    {
        self.column_weights = tens(self.layout_mode.columns());
    }

    /// The column of the module at `module_idx`.
    pub open spec fn column_of(&self, module_idx: int) -> int {
        module_idx / self.mpc()
    }

    /// `post` is `pre` after `adjust_column_width(module_idx, delta)`.
    pub open spec fn column_width_step(pre: &Self, post: &Self, module_idx: int, delta: int) -> bool {
        let v = pre@;
        let c = pre.column_of(module_idx);
        &&& post.reg() == pre.reg()
        &&& if v.layout.spec_columns() <= 1 || c >= v.layout.spec_columns() {
            post@ == v
        } else {
            let w = clamp(v.weights[c] + delta, 3, 20);
            post@ == (PanelView {
                weights: v.weights.update(c, w as u16),
                status: "列"@ + decimal_spec((c + 1) as nat) + "宽度："@ + decimal_spec(w as nat),
                ..v
            })
        }
    }

    /// `post` is `pre` after `adjust_module_height(module_idx, delta)`.
    pub open spec fn module_height_step(pre: &Self, post: &Self, module_idx: int, delta: int) -> bool {
        let v = pre@;
        let (start, end) = pre.column_bounds(module_idx);
        &&& post.reg() == pre.reg()
        &&& if module_idx >= v.deltas.len() {
            post@ == v
        } else if end - start != 2 {
            post@ == (PanelView { status: "当前列不支持调整高度（仅 2 个模块的列可调）"@, ..v })
        } else {
            let other = if module_idx == start { start + 1 } else { start };
            let nd = clamp(v.deltas[module_idx] + delta, -5, 10);
            let od = clamp(v.deltas[other] - delta, -5, 10);
            post@ == (PanelView {
                deltas: v.deltas.update(module_idx, nd as i16).update(other, od as i16),
                status: pre.name_at(v.current) + ": 高度偏移 "@ + int_decimal_spec(nd)
                    + " (范围 -5 ~ +10)"@,
                ..v
            })
        }
    }

    /// Widens (`delta > 0`) or narrows the column of the module at
    /// `module_idx` by `delta`, kept within 3..=20; nothing in a single column
    /// or past the last column.
    pub fn adjust_column_width(&mut self, module_idx: usize, delta: i16)
        requires
            old(self).wf(),
            -10 <= delta <= 10,
            old(self)@.layout.spec_columns() > 1 ==> old(self).len() > 0,
        ensures
            final(self).wf(),
            Self::column_width_step(old(self), final(self), module_idx as int, delta as int),
    {
        let columns = self.layout_mode.columns();
        if columns <= 1 {
            return ;
        }
        let modules_per_column = self.modules_per_column();
        let column_idx = module_idx / modules_per_column;
        if column_idx >= columns {
            return ;
        }
        let cur = self.column_weights[column_idx] as i16 + delta;
        let new_weight: u16 = (if cur < 3 {
            3
        } else if cur > 20 {
            20
        } else {
            cur
        }) as u16;
        self.column_weights.set(column_idx, new_weight);
        let mut msg: Vec<char> = Vec::new();
        push_str(&mut msg, "列");
        push_decimal(&mut msg, (column_idx + 1) as u64);
        push_str(&mut msg, "宽度：");
        push_decimal(&mut msg, new_weight as u64);
        self.status_message = string_of(&msg);
        proof {
            assert(self@.weights =~= old(self)@.weights.update(column_idx as int, new_weight));
            assert(self@.status =~= "列"@ + decimal_spec((column_idx + 1) as nat) + "宽度："@
                + decimal_spec(new_weight as nat));
        }
    }

    /// The positions `start..end` of the column of the module at `module_idx`.
    pub open spec fn column_bounds(&self, module_idx: int) -> (int, int) {
        let start = (module_idx / self.mpc()) * self.mpc();
        let end = if start + self.mpc() < self.len() { start + self.mpc() } else { self.len() };
        (start, end)
    }

    /// Makes the module at `module_idx` taller by `delta` rows, and the other
    /// module of its column shorter by as much, each offset kept within
    /// -5..=10; only a column of exactly two modules can be adjusted.
    pub fn adjust_module_height(&mut self, module_idx: usize, delta: i16)
        requires
            old(self).wf(),
            -1 <= delta <= 1,
            module_idx < old(self)@.deltas.len() ==> module_idx < old(self).len(),
        ensures
            final(self).wf(),
            Self::module_height_step(old(self), final(self), module_idx as int, delta as int),
    {
        if module_idx >= self.module_height_deltas.len() {
            return ;
        }
        let len = self.registry.len();
        let mpc = self.modules_per_column();
        let col = module_idx / mpc;
        proof {
            assert(col * mpc <= module_idx) by (nonlinear_arith)
                requires
                    col == module_idx / mpc,
                    mpc > 0,
            ;
        }
        let start = col * mpc;
        let end = if start + mpc < len { start + mpc } else { len };
        if end - start != 2 {
            self.status_message = "当前列不支持调整高度（仅 2 个模块的列可调）".to_owned();
            return ;
        }
        let a = self.module_height_deltas[module_idx] + delta;
        let new_delta: i16 = if a < -5 {
            -5
        } else if a > 10 {
            10
        } else {
            a
        };
        self.module_height_deltas.set(module_idx, new_delta);
        let other = if module_idx == start { start + 1 } else { start };
        let b = self.module_height_deltas[other] - delta;
        let other_delta: i16 = if b < -5 {
            -5
        } else if b > 10 {
            10
        } else {
            b
        };
        self.module_height_deltas.set(other, other_delta);
        let name = self.get_current_module_name();
        let mut msg: Vec<char> = Vec::new();
        push_str(&mut msg, name.as_str());
        push_str(&mut msg, ": 高度偏移 ");
        push_int_decimal(&mut msg, new_delta as i64);
        push_str(&mut msg, " (范围 -5 ~ +10)");
        self.status_message = string_of(&msg);
        proof {
            assert(self@.status =~= old(self).name_at(old(self)@.current) + ": 高度偏移 "@
                + int_decimal_spec(new_delta as int) + " (范围 -5 ~ +10)"@);
        }
    }

    /// Whether a module is selected.
    pub open spec fn has_current(&self) -> bool {
        0 <= self@.current < self.reg().listed().len()
    }

    /// The id of the selected module.
    pub open spec fn current_id(&self) -> Seq<char> {
        self.reg().listed()[self@.current]
    }

    /// The selected module.
    pub open spec fn current_module(&self) -> M {
        self.reg().module_of(self.current_id())
    }

    /// The keys on which the panel would panic: `Down` in the settings with no
    /// module; `+` on a module whose interval is within 10 of `u64::MAX`; a
    /// column key in a multi-column layout with no module.
    pub open spec fn key_panics(&self, key: Key) -> bool {
        let v = self@;
        if v.show_settings {
            key == Key::Down && self.len() == 0
        } else {
            match key {
                Key::Char(c) => ((c == '+' || c == '=') && self.has_current() && effective_interval(
                    &self.current_module(),
                ) > u64::MAX - 10) || ((c == '[' || c == ']') && v.layout.spec_columns() > 1
                    && self.len() == 0),
                Key::Left => v.layout.spec_columns() > 1 && self.len() == 0,
                Key::Right => v.layout.spec_columns() > 1 && self.len() == 0,
                _ => false,
            }
        }
    }

    /// `post` is `pre`, nothing changed.
    pub open spec fn unchanged(pre: &Self, post: &Self) -> bool {
        post.reg() == pre.reg() && post@ == pre@
    }

    /// The selected module's interval set to `new`, with the status line that
    /// reports it.
    pub open spec fn interval_step(pre: &Self, post: &Self, new: u64) -> bool {
        let id = pre.current_id();
        let m0 = pre.current_module();
        let m1 = post.reg().module_of(id);
        &&& ModuleRegistry::<M>::module_replaced(&pre.reg(), &post.reg(), id, m1)
        &&& m1.spec_stored_interval() == new
        &&& effective_interval(&m1) == new
        &&& m1.spec_name() == m0.spec_name()
        &&& post@ == (PanelView {
            status: m0.spec_name() + ": 刷新间隔 "@ + decimal_spec(new as nat) + " 秒"@,
            ..pre@
        })
    }

    /// A move of the selection to `target` (when there is one), with the
    /// status line that names the module selected.
    pub open spec fn select_step(pre: &Self, post: &Self, target: Option<int>) -> bool {
        match target {
            Some(i) => post.reg() == pre.reg() && post@ == (PanelView {
                current: i,
                status: "选中："@ + pre.name_at(i),
                ..pre@
            }),
            None => Self::unchanged(pre, post),
        }
    }

    /// A move to the neighbouring column in direction `dir`.
    pub open spec fn column_move_step(pre: &Self, post: &Self, dir: int) -> bool {
        let v = pre@;
        if v.layout.spec_columns() > 1 {
            match horizontal_target(v.current, dir, v.layout.spec_columns() as int, pre.mpc(), pre.len()) {
                Some(i) => {
                    let j = adjusted_index(&pre.reg(), i, pre.len());
                    post.reg() == pre.reg() && post@ == (PanelView {
                        current: j,
                        status: "选中："@ + pre.name_at(j),
                        ..v
                    })
                },
                None => Self::unchanged(pre, post),
            }
        } else {
            Self::unchanged(pre, post)
        }
    }

    /// What a key does while the settings are shown.
    pub open spec fn settings_key_step(pre: &Self, post: &Self, key: Key) -> bool {
        let v = pre@;
        match key {
            Key::Esc => post.reg() == pre.reg() && post@ == (PanelView {
                show_settings: false,
                current: pre.visible_adjusted(),
                status: Seq::empty(),
                ..v
            }),
            Key::Up => post.reg() == pre.reg() && post@ == (PanelView {
                cursor: if v.cursor > 0 { v.cursor - 1 } else { v.cursor },
                ..v
            }),
            Key::Down => post.reg() == pre.reg() && post@ == (PanelView {
                cursor: if v.cursor < pre.len() - 1 { v.cursor + 1 } else { v.cursor },
                ..v
            }),
            Key::Char(c) => if c == ' ' && v.cursor < pre.reg().order_ids().len() {
                let id = pre.reg().order_ids()[v.cursor];
                post@ == v && ModuleRegistry::<M>::visibility_set(
                    &pre.reg(),
                    &post.reg(),
                    id,
                    !pre.reg().visible_of(id),
                )
            } else {
                Self::unchanged(pre, post)
            },
            _ => Self::unchanged(pre, post),
        }
    }

    /// What a character key does outside the settings.
    pub open spec fn char_key_step(pre: &Self, post: &Self, c: char, cmd: PanelCommand) -> bool {
        let v = pre@;
        if c == 's' || c == 'S' {
            cmd == PanelCommand::Nothing && post.reg() == pre.reg() && post@ == (PanelView {
                show_settings: true,
                cursor: 0,
                show_about: false,
                status: "模块设置 - ESC 返回"@,
                ..v
            })
        } else if c == 'q' {
            cmd == PanelCommand::Nothing && post.reg() == pre.reg() && post@ == (PanelView {
                running: false,
                ..v
            })
        } else if c == 'r' {
            cmd == PanelCommand::RefreshAll && post.reg() == pre.reg() && post@ == (PanelView {
                status: "已刷新所有模块"@,
                ..v
            })
        } else if c == 'u' {
            if pre.has_current() {
                (cmd matches PanelCommand::Refresh(id) && id@ == pre.current_id()) && post.reg()
                    == pre.reg() && post@ == (PanelView {
                    status: "已刷新："@ + pre.current_module().spec_name(),
                    ..v
                })
            } else {
                cmd == PanelCommand::Nothing && Self::unchanged(pre, post)
            }
        } else if c == ' ' {
            cmd == PanelCommand::Nothing && if pre.has_current() {
                let id = pre.current_id();
                let m0 = pre.current_module();
                let m1 = post.reg().module_of(id);
                &&& ModuleRegistry::<M>::module_replaced(&pre.reg(), &post.reg(), id, m1)
                &&& m1.spec_paused() == !m0.spec_paused()
                &&& m1.spec_stored_interval() == m0.spec_stored_interval()
                &&& m1.spec_name() == m0.spec_name()
                &&& post@ == (PanelView {
                    status: m0.spec_name() + ": "@ + (if effective_interval(&m1) == 0 {
                        "已暂停"@
                    } else {
                        "已恢复"@
                    }),
                    ..v
                })
            } else {
                Self::unchanged(pre, post)
            }
        } else if c == 'l' || c == 'L' {
            let cols = v.layout.spec_next().spec_columns();
            cmd == PanelCommand::Nothing && post.reg() == pre.reg() && post@ == (PanelView {
                layout: v.layout.spec_next(),
                weights: Seq::new(cols as nat, |i: int| 10u16),
                status: "布局："@ + decimal_spec(cols as nat) + " 列"@,
                ..v
            })
        } else if c == '[' {
            cmd == PanelCommand::Nothing && Self::column_width_step(pre, post, v.current, -1)
        } else if c == ']' {
            cmd == PanelCommand::Nothing && Self::column_width_step(pre, post, v.current, 1)
        } else if c == '+' || c == '=' {
            cmd == PanelCommand::Nothing && if pre.has_current() {
                let cur = effective_interval(&pre.current_module());
                Self::interval_step(pre, post, if cur + 10 < 300 { (cur + 10) as u64 } else { 300 })
            } else {
                Self::unchanged(pre, post)
            }
        } else if c == '-' {
            cmd == PanelCommand::Nothing && if pre.has_current() {
                let cur = effective_interval(&pre.current_module());
                Self::interval_step(pre, post, if cur <= 5 { 1 } else { (cur - 5) as u64 })
            } else {
                Self::unchanged(pre, post)
            }
        } else if c == '{' {
            cmd == PanelCommand::Nothing && Self::module_height_step(pre, post, v.current, -1)
        } else if c == '}' {
            cmd == PanelCommand::Nothing && Self::module_height_step(pre, post, v.current, 1)
        } else {
            cmd == PanelCommand::Nothing && Self::unchanged(pre, post)
        }
    }

    /// What a key does: the panel's whole reaction to one key press.
    pub open spec fn key_step(pre: &Self, post: &Self, key: Key, cmd: PanelCommand) -> bool {
        let v = pre@;
        if v.show_settings {
            cmd == PanelCommand::Nothing && Self::settings_key_step(pre, post, key)
        } else {
            match key {
                Key::Esc => cmd == PanelCommand::Nothing && post.reg() == pre.reg() && post@ == (
                PanelView {
                    show_about: !v.show_about,
                    status: if !v.show_about {
                        "关于页面 - 按 ESC 关闭"@
                    } else {
                        Seq::empty()
                    },
                    ..v
                }),
                Key::Char(c) => Self::char_key_step(pre, post, c, cmd),
                Key::Up => cmd == PanelCommand::Nothing && Self::select_step(
                    pre,
                    post,
                    prev_shown(&pre.reg(), v.current),
                ),
                Key::Down => cmd == PanelCommand::Nothing && Self::select_step(
                    pre,
                    post,
                    next_shown_from(&pre.reg(), v.current + 1, pre.len()),
                ),
                Key::Left => cmd == PanelCommand::Nothing && Self::column_move_step(pre, post, -1),
                Key::Right => cmd == PanelCommand::Nothing && Self::column_move_step(pre, post, 1),
                Key::PageUp => cmd == PanelCommand::Nothing && Self::module_height_step(
                    pre,
                    post,
                    v.current,
                    -1,
                ),
                Key::PageDown => cmd == PanelCommand::Nothing && Self::module_height_step(
                    pre,
                    post,
                    v.current,
                    1,
                ),
                Key::Other => cmd == PanelCommand::Nothing && Self::unchanged(pre, post),
            }
        }
    }

    /// Whether `handle_key(key)` can run without panicking.
    pub fn key_is_safe(&self, key: Key) -> (r: bool)
        requires
            self.wf(),
        ensures
            r == !self.key_panics(key),
    {
        let len = self.registry.len();
        if self.show_settings {
            return !(key == Key::Down && len == 0);
        }
        let cols = self.layout_mode.columns();
        match key {
            Key::Char(c) => {
                if c == '+' || c == '=' {
                    match self.registry.module_at(self.current_module_idx) {
                        Some(m) => m.refresh_interval() <= u64::MAX - 10,
                        None => true,
                    }
                } else if c == '[' || c == ']' {
                    !(cols > 1 && len == 0)
                } else {
                    true
                }
            },
            Key::Left => !(cols > 1 && len == 0),
            Key::Right => !(cols > 1 && len == 0),
            _ => true,
        }
    }

    fn set_selected(&mut self, idx: usize)
        requires
            old(self).wf(),
            idx < old(self).len(),
        ensures
            final(self).wf(),
            final(self).reg() == old(self).reg(),
            final(self)@ == (PanelView {
                current: idx as int,
                status: "选中："@ + old(self).name_at(idx as int),
                ..old(self)@
            }),
    {
        self.current_module_idx = idx;
        let name = self.get_current_module_name();
        let mut msg: Vec<char> = Vec::new();
        push_str(&mut msg, "选中：");
        push_str(&mut msg, name.as_str());
        self.status_message = string_of(&msg);
    }

    fn set_interval_of_current(&mut self, up: bool)
        requires
            old(self).wf(),
            !old(self).show_settings,
            up ==> !old(self).key_panics(Key::Char('+')),
        ensures
            final(self).wf(),
            if old(self).has_current() {
                let cur = effective_interval(&old(self).current_module());
                Self::interval_step(
                    old(self),
                    final(self),
                    if up {
                        if cur + 10 < 300 {
                            (cur + 10) as u64
                        } else {
                            300
                        }
                    } else if cur <= 5 {
                        1
                    } else {
                        (cur - 5) as u64
                    },
                )
            } else {
                Self::unchanged(old(self), final(self))
            },
    {
        let cur = self.current_module_idx;
        match self.registry.module_at_mut(cur) {
            Some(m) => {
                let current = m.refresh_interval();
                let new_interval = if up {
                    if current + 10 < 300 {
                        current + 10
                    } else {
                        300
                    }
                } else if current <= 5 {
                    1
                } else {
                    current - 5
                };
                m.set_refresh_interval(new_interval);
                let mut msg: Vec<char> = Vec::new();
                push_str(&mut msg, m.name());
                push_str(&mut msg, ": 刷新间隔 ");
                push_decimal(&mut msg, new_interval);
                push_str(&mut msg, " 秒");
                self.status_message = string_of(&msg);
            },
            None => {},
        }
    }

    fn toggle_current(&mut self)
        requires
            old(self).wf(),
        ensures
            final(self).wf(),
            Self::char_key_step(old(self), final(self), ' ', PanelCommand::Nothing),
    {
        let cur = self.current_module_idx;
        match self.registry.module_at_mut(cur) {
            Some(m) => {
                m.toggle_pause();
                let paused = m.is_paused();
                let mut msg: Vec<char> = Vec::new();
                push_str(&mut msg, m.name());
                push_str(&mut msg, ": ");
                push_str(&mut msg, if paused { "已暂停" } else { "已恢复" });
                self.status_message = string_of(&msg);
            },
            None => {},
        }
    }

    fn move_to_column(&mut self, dir: i8)
        requires
            old(self).wf(),
            old(self)@.layout.spec_columns() > 1 ==> old(self).len() > 0,
        ensures
            final(self).wf(),
            Self::column_move_step(old(self), final(self), dir as int),
    {
        if self.layout_mode.columns() > 1 {
            match self.navigate_horizontal(self.current_module_idx, dir) {
                Some(idx) => {
                    self.current_module_idx = idx;
                    self.adjust_current_visible();
                    let name = self.get_current_module_name();
                    let mut msg: Vec<char> = Vec::new();
                    push_str(&mut msg, "选中：");
                    push_str(&mut msg, name.as_str());
                    self.status_message = string_of(&msg);
                },
                None => {},
            }
        }
    }

    /// Reacts to one key press. Updating modules is left to the caller, as the
    /// returned command says.
    pub fn handle_key(&mut self, key: Key) -> (cmd: PanelCommand)
        requires
            old(self).wf(),
            !old(self).key_panics(key),
        ensures
            final(self).wf(),
            Self::key_step(old(self), final(self), key, cmd),
    {
        if self.show_settings {
            match key {
                Key::Esc => {
                    self.show_settings = false;
                    self.adjust_current_visible();
                    self.status_message = String::new();
                },
                Key::Up => {
                    if self.settings_cursor > 0 {
                        self.settings_cursor = self.settings_cursor - 1;
                    }
                },
                Key::Down => {
                    let len = self.registry.len();
                    if self.settings_cursor < len - 1 {
                        self.settings_cursor = self.settings_cursor + 1;
                    }
                },
                Key::Char(c) => {
                    if c == ' ' {
                        match self.registry.nth_id(self.settings_cursor) {
                            Some(id) => {
                                let visible = self.registry.is_visible(id.as_str());
                                self.registry.set_visible(id.as_str(), !visible);
                            },
                            None => {},
                        }
                    }
                },
                _ => {},
            }
            return PanelCommand::Nothing;
        }
        match key {
            Key::Esc => {
                self.show_about = !self.show_about;
                self.status_message = if self.show_about {
                    "关于页面 - 按 ESC 关闭".to_owned()
                } else {
                    String::new()
                };
                PanelCommand::Nothing
            },
            Key::Char(c) => {
                if c == 's' || c == 'S' {
                    self.show_settings = true;
                    self.settings_cursor = 0;
                    self.show_about = false;
                    self.status_message = "模块设置 - ESC 返回".to_owned();
                    PanelCommand::Nothing
                } else if c == 'q' {
                    self.running = false;
                    PanelCommand::Nothing
                } else if c == 'r' {
                    self.status_message = "已刷新所有模块".to_owned();
                    PanelCommand::RefreshAll
                } else if c == 'u' {
                    match self.registry.listed_id(self.current_module_idx) {
                        Some(id) => {
                            let name = self.get_current_module_name();
                            let mut msg: Vec<char> = Vec::new();
                            push_str(&mut msg, "已刷新：");
                            push_str(&mut msg, name.as_str());
                            self.status_message = string_of(&msg);
                            PanelCommand::Refresh(id)
                        },
                        None => PanelCommand::Nothing,
                    }
                } else if c == ' ' {
                    self.toggle_current();
                    PanelCommand::Nothing
                } else if c == 'l' || c == 'L' {
                    let next = self.layout_mode.next();
                    self.column_weights = tens(next.columns());
                    self.layout_mode = next;
                    let mut msg: Vec<char> = Vec::new();
                    push_str(&mut msg, "布局：");
                    push_decimal(&mut msg, self.layout_mode.columns() as u64);
                    push_str(&mut msg, " 列");
                    self.status_message = string_of(&msg);
                    PanelCommand::Nothing
                } else if c == '[' {
                    self.adjust_column_width(self.current_module_idx, -1);
                    PanelCommand::Nothing
                } else if c == ']' {
                    self.adjust_column_width(self.current_module_idx, 1);
                    PanelCommand::Nothing
                } else if c == '+' || c == '=' {
                    self.set_interval_of_current(true);
                    PanelCommand::Nothing
                } else if c == '-' {
                    self.set_interval_of_current(false);
                    PanelCommand::Nothing
                } else if c == '{' {
                    self.adjust_module_height(self.current_module_idx, -1);
                    PanelCommand::Nothing
                } else if c == '}' {
                    self.adjust_module_height(self.current_module_idx, 1);
                    PanelCommand::Nothing
                } else {
                    PanelCommand::Nothing
                }
            },
            Key::Up => {
                match self.visible_prev(self.current_module_idx) {
                    Some(idx) => {
                        proof {
                            Self::lemma_prev_shown_bound(&self.reg(), self@.current);
                        }
                        self.set_selected(idx);
                    },
                    None => {},
                }
                PanelCommand::Nothing
            },
            Key::Down => {
                match self.visible_next(self.current_module_idx) {
                    Some(idx) => {
                        proof {
                            Self::lemma_next_shown_bound(&self.reg(), self@.current + 1, self.len());
                        }
                        self.set_selected(idx);
                    },
                    None => {},
                }
                PanelCommand::Nothing
            },
            Key::Left => {
                self.move_to_column(-1);
                PanelCommand::Nothing
            },
            Key::Right => {
                self.move_to_column(1);
                PanelCommand::Nothing
            },
            Key::PageUp => {
                self.adjust_module_height(self.current_module_idx, -1);
                PanelCommand::Nothing
            },
            Key::PageDown => {
                self.adjust_module_height(self.current_module_idx, 1);
                PanelCommand::Nothing
            },
            Key::Other => PanelCommand::Nothing,
        }
    }

    /// The status bar text.
    pub open spec fn status_line_spec(&self) -> Seq<char> {
        self@.status + " | 模块："@ + decimal_spec((self@.current + 1) as nat) + "/"@ + decimal_spec(
            self.len() as nat,
        ) + " (可见 "@ + decimal_spec(self.reg().visible_set().len()) + ") | 布局："@
            + decimal_spec(self@.layout.spec_columns() as nat)
            + "列 | 空格-暂停 | l-布局 | [/]-列宽 | PgUp/PgDn-列高"@
    }

    /// The status bar text: the status message, the selected position, the
    /// module counts and the layout.
    pub fn status_line(&self) -> (r: String)
        requires
            self.wf(),
        ensures
            r@ == self.status_line_spec(),
    {
        let mut msg: Vec<char> = Vec::new();
        push_str(&mut msg, self.status_message.as_str());
        push_str(&mut msg, " | 模块：");
        push_decimal(&mut msg, self.current_module_idx as u64 + 1);
        push_str(&mut msg, "/");
        push_decimal(&mut msg, self.registry.len() as u64);
        push_str(&mut msg, " (可见 ");
        push_decimal(&mut msg, self.registry.visible_count() as u64);
        push_str(&mut msg, ") | 布局：");
        push_decimal(&mut msg, self.layout_mode.columns() as u64);
        push_str(&mut msg, "列 | 空格-暂停 | l-布局 | [/]-列宽 | PgUp/PgDn-列高");
        string_of(&msg)
    }

    /// One line of the settings list for listed position `i`.
    pub open spec fn settings_line_spec(&self, i: int) -> Seq<char> {
        let id = self.reg().listed()[i];
        (if self.reg().visible_of(id) {
            "[✓]"@
        } else {
            "[✗]"@
        }) + " "@ + self.reg().module_of(id).spec_name()
    }

    /// The lines of the settings list: each listed module with its switch, and
    /// whether the line is under the cursor.
    pub fn settings_lines(&self) -> (r: Vec<(String, bool)>)
        requires
            self.wf(),
        ensures
            r@.len() == self.reg().listed().len(),
            forall|i: int|
                0 <= i < r@.len() ==> (#[trigger] r@[i]).0@ == self.settings_line_spec(i) && r@[i].1
                    == (i == self@.cursor),
    {
        let mods = self.registry.modules();
        let mut r: Vec<(String, bool)> = Vec::new();
        let mut i: usize = 0;
        while i < mods.len()
            invariant
                self.wf(),
                i <= mods.len(),
                mods@.len() == self.reg().listed().len(),
                forall|j: int|
                    0 <= j < mods@.len() ==> (#[trigger] mods@[j]).0@ == self.reg().listed()[j]
                        && *mods@[j].1 == self.reg().module_of(self.reg().listed()[j]),
                r@.len() == i,
                forall|j: int|
                    0 <= j < i ==> (#[trigger] r@[j]).0@ == self.settings_line_spec(j) && r@[j].1
                        == (j == self@.cursor),
            decreases mods.len() - i,
        {
            let (id, m) = mods[i];
            let visible = self.registry.is_visible(id.as_str());
            let mut line: Vec<char> = Vec::new();
            push_str(&mut line, if visible { "[✓]" } else { "[✗]" });
            push_str(&mut line, " ");
            push_str(&mut line, m.name());
            r.push((string_of(&line), i == self.settings_cursor));
            i = i + 1;
        }
        r
    }

    /// The slot of the module at listed position `p`: its height plus its
    /// offset, at least 3, plus 2 rows of border.
    pub open spec fn slot_spec(&self, p: int) -> ModuleSlot {
        let h = self.offset_height(p);
        ModuleSlot {
            position: p as usize,
            height: ((if h < 3 { 3 } else { h }) + 2) as u16,
            selected: p == self@.current,
        }
    }

    /// The number of columns in use: the layout's, or fewer with fewer modules.
    pub open spec fn effective_columns(&self) -> int {
        let n = shown_positions(&self.reg()).len() as int;
        let c = self@.layout.spec_columns() as int;
        if c < n {
            c
        } else {
            n
        }
    }

    /// The shown modules per column.
    pub open spec fn shown_per_column(&self) -> int {
        per_column(shown_positions(&self.reg()).len() as int, self.effective_columns())
    }

    /// Column `c` of the module area.
    pub open spec fn column_percent(&self, c: int) -> int {
        self@.weights[c] * 100 / sum_weights(self@.weights.take(self.effective_columns()))
    }

    /// The shown positions in column `c`.
    pub open spec fn column_positions(&self, c: int) -> Seq<int> {
        let shown = shown_positions(&self.reg());
        let start = c * self.shown_per_column();
        let end = if start + self.shown_per_column() < shown.len() {
            start + self.shown_per_column()
        } else {
            shown.len() as int
        };
        if start >= shown.len() {
            Seq::empty()
        } else {
            shown.subrange(start, end)
        }
    }

    /// The height of the module at listed position `p` plus its offset.
    pub open spec fn offset_height(&self, p: int) -> int {
        self.reg().module_of(self.reg().listed()[p]).spec_height() as i16 as int + (if p
            < self@.deltas.len() {
            self@.deltas[p] as int
        } else {
            0
        })
    }

    /// Whether every shown module's height plus its offset fits an `i16`.
    pub open spec fn heights_fit(&self) -> bool {
        forall|p: int|
            0 <= p < self.reg().listed().len() && shown_at(&self.reg(), p) ==> i16::MIN
                <= #[trigger] self.offset_height(p) <= i16::MAX
    }

    /// Whether every shown module's height plus its offset fits an `i16`
    /// (see `heights_fit`), checked.
    pub fn heights_fit_exec(&self) -> (r: bool)
        requires
            self.wf(),
        ensures
            r == self.heights_fit(),
    {
        let mods = self.registry.modules();
        let mut i: usize = 0;
        while i < mods.len()
            invariant
                self.wf(),
                i <= mods.len(),
                mods@.len() == self.reg().listed().len(),
                forall|j: int|
                    0 <= j < mods@.len() ==> (#[trigger] mods@[j]).0@ == self.reg().listed()[j]
                        && *mods@[j].1 == self.reg().module_of(self.reg().listed()[j]),
                forall|p: int|
                    0 <= p < i && shown_at(&self.reg(), p) ==> i16::MIN <= #[trigger] self.offset_height(p)
                        <= i16::MAX,
            decreases mods.len() - i,
        {
            let (id, m) = mods[i];
            if self.registry.is_visible(id.as_str()) {
                let d: i32 = if i < self.module_height_deltas.len() {
                    self.module_height_deltas[i] as i32
                } else {
                    0
                };
                let h: i32 = (m.height() as i16) as i32 + d;
                if h < -32768 || h > 32767 {
                    assert(shown_at(&self.reg(), i as int));
                    assert(self.offset_height(i as int) == h);
                    return false;
                }
                assert(self.offset_height(i as int) == h);
            }
            i = i + 1;
        }
        true
    }

    proof fn lemma_shown_step(reg: &ModuleRegistry<M>, i: int)
        requires
            0 <= i < reg.listed().len(),
        ensures
            Seq::new(reg.listed().len(), |j: int| j).take(i + 1).filter(|j: int| shown_at(reg, j))
                == (if shown_at(reg, i) {
                Seq::new(reg.listed().len(), |j: int| j).take(i).filter(|j: int| shown_at(reg, j)).push(i)
            } else {
                Seq::new(reg.listed().len(), |j: int| j).take(i).filter(|j: int| shown_at(reg, j))
            }),
    {
        let all = Seq::new(reg.listed().len(), |j: int| j);
        assert(all.take(i + 1) =~= all.take(i).push(i));
        all.take(i).lemma_filter_push(i, |j: int| shown_at(reg, j));
    }

    fn shown_list(&self) -> (r: Vec<usize>)
        requires
            self.wf(),
        ensures
            r@.map_values(|p: usize| p as int) == shown_positions(&self.reg()),
            forall|k: int| 0 <= k < r@.len() ==> #[trigger] r@[k] < self.reg().listed().len(),
    {
        let mods = self.registry.modules();
        let ghost all = Seq::new(self.reg().listed().len(), |j: int| j);
        let ghost reg = self.reg();
        let mut r: Vec<usize> = Vec::new();
        let mut i: usize = 0;
        while i < mods.len()
            invariant
                self.wf(),
                reg == self.reg(),
                i <= mods.len(),
                all == Seq::new(reg.listed().len(), |j: int| j),
                mods@.len() == reg.listed().len(),
                forall|j: int| 0 <= j < mods@.len() ==> (#[trigger] mods@[j]).0@ == reg.listed()[j],
                r@.map_values(|p: usize| p as int) == all.take(i as int).filter(|j: int| shown_at(&reg, j)),
                forall|k: int| 0 <= k < r@.len() ==> #[trigger] r@[k] < i,
            decreases mods.len() - i,
        {
            proof {
                Self::lemma_shown_step(&reg, i as int);
            }
            let (id, _) = mods[i];
            if self.registry.is_visible(id.as_str()) {
                r.push(i);
                assert(r@.map_values(|p: usize| p as int) =~= all.take(i as int).filter(
                    |j: int| shown_at(&reg, j),
                ).push(i as int));
            }
            i = i + 1;
        }
        assert(all.take(i as int) =~= all);
        r
    }

    /// What the module area shows (see `plan_modules`).
    pub open spec fn plan_spec(&self, r: ModulesView) -> bool {
        match r {
            ModulesView::NoModules => self.reg().listed().len() == 0,
            ModulesView::AllHidden => self.reg().listed().len() > 0 && shown_positions(
                &self.reg(),
            ).len() == 0,
            ModulesView::Columns(cols) => {
                &&& shown_positions(&self.reg()).len() > 0
                &&& cols@.len() == self.effective_columns()
                &&& forall|c: int|
                    0 <= c < cols@.len() ==> {
                        &&& (#[trigger] cols@[c]).percent == self.column_percent(c)
                        &&& cols@[c].modules@.len() == self.column_positions(c).len()
                        &&& forall|k: int|
                            0 <= k < cols@[c].modules@.len() ==> #[trigger] cols@[c].modules@[k]
                                == self.slot_spec(self.column_positions(c)[k])
                    }
            },
        }
    }

    /// The layout of the module area: the shown modules split over the
    /// columns in use, each column with its share of the width.
    pub fn plan_modules(&self) -> (r: ModulesView)
        requires
            self.wf(),
            self.heights_fit(),
        ensures
            self.plan_spec(r),
    {
        if self.registry.listed_len() == 0 {
            return ModulesView::NoModules;
        }
        let shown = self.shown_list();
        let ghost sp = shown_positions(&self.reg());
        let n = shown.len();
        proof {
            let reg = self.reg();
            let all = Seq::new(reg.listed().len(), |j: int| j);
            all.lemma_filter_len(|j: int| shown_at(&reg, j));
            reg.order_ids().lemma_filter_len(reg.present());
            assert(sp.len() == n);
        }
        if n == 0 {
            return ModulesView::AllHidden;
        }
        let max_cols = self.layout_mode.columns();
        let eff = if max_cols < n { max_cols } else { n };
        let mpc = (n - 1) / eff + 1;
        proof {
            let (ni, ei, mi) = (n as int, eff as int, mpc as int);
            assert(mi == (ni + ei - 1) / ei) by (nonlinear_arith)
                requires
                    mi == (ni - 1) / ei + 1,
                    ni >= 1,
                    ei >= 1,
            ;
            assert(mi <= ni) by (nonlinear_arith)
                requires
                    mi == (ni - 1) / ei + 1,
                    ni >= 1,
                    ei >= 1,
            ;
        }
        let mut sum: u16 = 0;
        let mut c: usize = 0;
        while c < eff
            invariant
                self.wf(),
                c <= eff <= 3,
                eff <= self@.weights.len(),
                sum == sum_weights(self@.weights.take(c as int)),
                sum <= 20 * c,
            decreases eff - c,
        {
            assert(self@.weights.take(c + 1).drop_last() =~= self@.weights.take(c as int));
            sum = sum + self.column_weights[c];
            c = c + 1;
        }
        assert(sum >= 3) by {
            assert(self@.weights.take(1).drop_last() =~= self@.weights.take(0));
            assert(self@.weights.take(1).last() == self@.weights[0]);
            assert(3 <= self@.weights[0]);
            assert(sum_weights(self@.weights.take(0)) == 0);
            assert(sum_weights(self@.weights.take(1)) >= 3);
            Self::lemma_sum_monotone(self@.weights, 1, eff as int);
        }
        let mut cols: Vec<ColumnPlan> = Vec::new();
        c = 0;
        while c < eff
            invariant
                self.wf(),
                self.heights_fit(),
                c <= eff,
                eff == self.effective_columns(),
                mpc == self.shown_per_column(),
                n == sp.len(),
                sp == shown_positions(&self.reg()),
                shown@.map_values(|p: usize| p as int) == sp,
                forall|k: int| 0 <= k < shown@.len() ==> #[trigger] shown@[k] < self.reg().listed().len(),
                eff <= 3,
                eff <= self@.weights.len(),
                sum == sum_weights(self@.weights.take(eff as int)),
                3 <= sum <= 60,
                n > 0,
                mpc > 0,
                mpc <= n,
                cols@.len() == c,
                forall|d: int|
                    0 <= d < c ==> {
                        &&& (#[trigger] cols@[d]).percent == self.column_percent(d)
                        &&& cols@[d].modules@.len() == self.column_positions(d).len()
                        &&& forall|k: int|
                            0 <= k < cols@[d].modules@.len() ==> #[trigger] cols@[d].modules@[k]
                                == self.slot_spec(self.column_positions(d)[k])
                    },
            decreases eff - c,
        {
            let w = self.column_weights[c];
            let percent: u16 = w * 100 / sum;
            assert(c * mpc <= 3 * n) by (nonlinear_arith)
                requires
                    c < 3,
                    mpc <= n,
            ;
            let start = c * mpc;
            let end = if start + mpc < n { start + mpc } else { n };
            let mut slots: Vec<ModuleSlot> = Vec::new();
            if start < n {
                let mut k = start;
                while k < end
                    invariant
                        self.wf(),
                        self.heights_fit(),
                        start <= k <= end <= n,
                        start < n,
                        shown@.map_values(|p: usize| p as int) == sp,
                        sp == shown_positions(&self.reg()),
                        n == sp.len(),
                        forall|q: int| 0 <= q < shown@.len() ==> #[trigger] shown@[q] < self.reg().listed().len(),
                        slots@.len() == k - start,
                        forall|q: int|
                            0 <= q < slots@.len() ==> #[trigger] slots@[q] == self.slot_spec(
                                sp[start + q],
                            ),
                    decreases end - k,
                {
                    let p = shown[k];
                    proof {
                        assert(sp[k as int] == p as int);
                        assert(sp.contains(p as int));
                        assert(shown_at(&self.reg(), p as int));
                    }
                    let m = self.registry.module_at(p).unwrap();
                    let delta: i16 = if p < self.module_height_deltas.len() {
                        self.module_height_deltas[p]
                    } else {
                        0
                    };
                    proof {
                        assert(*m == self.reg().module_of(self.reg().listed()[p as int]));
                        assert(i16::MIN <= self.offset_height(p as int) <= i16::MAX);
                    }
                    let h = (#[verifier::truncate] (m.height() as i16)) + delta;
                    let h2: u16 = (if h < 3 { 3 } else { h }) as u16 + 2;
                    slots.push(ModuleSlot { position: p, height: h2, selected: p == self.current_module_idx });
                    k = k + 1;
                }
            }
            proof {
                if start < n {
                    assert(self.column_positions(c as int) =~= sp.subrange(start as int, end as int));
                } else {
                    assert(self.column_positions(c as int) =~= Seq::<int>::empty());
                }
            }
            cols.push(ColumnPlan { percent, modules: slots });
            c = c + 1;
        }
        ModulesView::Columns(cols)
    }

    proof fn lemma_sum_monotone(s: Seq<u16>, a: int, b: int)
        requires
            0 <= a <= b <= s.len(),
        ensures
            sum_weights(s.take(a)) <= sum_weights(s.take(b)),
        decreases b - a,
    {
        if a < b {
            Self::lemma_sum_monotone(s, a, b - 1);
            assert(s.take(b).drop_last() =~= s.take(b - 1));
        }
    }
}


proof fn lemma_prev_shown_is_shown<M: PanelModule>(reg: &ModuleRegistry<M>, from: int)
    ensures
        prev_shown(reg, from) matches Some(i) ==> shown_at(reg, i) && i < from,
    decreases from,
{
    if from > 0 && !shown_at(reg, from - 1) {
        lemma_prev_shown_is_shown(reg, from - 1);
    }
}

proof fn lemma_next_shown_is_shown<M: PanelModule>(reg: &ModuleRegistry<M>, i: int, len: int)
    ensures
        next_shown_from(reg, i, len) matches Some(j) ==> shown_at(reg, j) && i <= j < len,
    decreases len - i,
{
    if i < len && !shown_at(reg, i) {
        lemma_next_shown_is_shown(reg, i + 1, len);
    }
}

proof fn lemma_next_shown_first<M: PanelModule>(reg: &ModuleRegistry<M>, i: int, len: int)
    ensures
        match next_shown_from(reg, i, len) {
            Some(j) => forall|k: int| i <= k < j ==> !#[trigger] shown_at(reg, k),
            None => forall|k: int| i <= k < len ==> !#[trigger] shown_at(reg, k),
        },
    decreases len - i,
{
    if i < len && !shown_at(reg, i) {
        lemma_next_shown_first(reg, i + 1, len);
    }
}

proof fn lemma_prev_shown_last<M: PanelModule>(reg: &ModuleRegistry<M>, from: int)
    ensures
        match prev_shown(reg, from) {
            Some(j) => forall|k: int| j < k < from ==> !#[trigger] shown_at(reg, k),
            None => forall|k: int| 0 <= k < from ==> !#[trigger] shown_at(reg, k),
        },
    decreases from,
{
    if from > 0 && !shown_at(reg, from - 1) {
        lemma_prev_shown_last(reg, from - 1);
    }
}

/// Leaving the settings keeps the selection off hidden modules: when some
/// module is shown, the selection ends on a shown module. A shown selection
/// stays; a hidden one moves to the nearest shown module after it, or, when
/// there is none after it, to the nearest shown module before it.
pub proof fn law_settings_exit_selects_shown<M: PanelModule>(
    pre: &Panel<M>,
    post: &Panel<M>,
    cmd: PanelCommand,
)
    requires
        pre.wf(),
        pre@.show_settings,
        Panel::<M>::key_step(pre, post, Key::Esc, cmd),
        pre@.current < pre.reg().listed().len(),
        exists|i: int| 0 <= i < pre.len() && #[trigger] shown_at(&pre.reg(), i),
    ensures
        shown_at(&post.reg(), post@.current),
        !post@.show_settings,
        shown_at(&pre.reg(), pre@.current) ==> post@.current == pre@.current,
        !shown_at(&pre.reg(), pre@.current) && (exists|j: int|
            pre@.current < j < pre.len() && #[trigger] shown_at(&pre.reg(), j)) ==> {
            &&& pre@.current < post@.current < pre.len()
            &&& forall|k: int| pre@.current < k < post@.current ==> !#[trigger] shown_at(&pre.reg(), k)
        },
        !shown_at(&pre.reg(), pre@.current) && !(exists|j: int|
            pre@.current < j < pre.len() && #[trigger] shown_at(&pre.reg(), j)) ==> {
            &&& post@.current < pre@.current
            &&& forall|k: int| post@.current < k < pre@.current ==> !#[trigger] shown_at(&pre.reg(), k)
        },
{
    let reg = pre.reg();
    let cur = pre@.current;
    let len = pre.len();
    lemma_next_shown_is_shown(&reg, cur + 1, len);
    lemma_next_shown_first(&reg, cur + 1, len);
    lemma_prev_shown_is_shown(&reg, cur);
    lemma_prev_shown_last(&reg, cur);
    let w = choose|i: int| 0 <= i < len && #[trigger] shown_at(&reg, i);
    if !shown_at(&reg, cur) {
        if next_shown_from(&reg, cur + 1, len) is None {
            assert(w < cur) by {
                if w > cur {
                    assert(!shown_at(&reg, w));
                }
            }
            assert(prev_shown(&reg, cur) is Some) by {
                if prev_shown(&reg, cur) is None {
                    assert(!shown_at(&reg, w));
                }
            }
            assert forall|j: int| pre@.current < j < pre.len() implies !#[trigger] shown_at(&pre.reg(), j) by {}
        }
    }
}

/// The module area uses as many columns as the layout has, or fewer when
/// fewer modules are shown: the smaller of the two. The first column is never
/// empty, and with no more shown modules than columns each column holds one
/// shown module, in order.
pub proof fn law_plan_columns<M: PanelModule>(p: &Panel<M>, r: ModulesView)
    requires
        p.wf(),
        p.plan_spec(r),
    ensures
        match r {
            ModulesView::Columns(cols) => {
                let n = shown_positions(&p.reg()).len() as int;
                let l = p@.layout.spec_columns() as int;
                &&& cols@.len() == (if l < n { l } else { n })
                &&& cols@[0].modules@.len() > 0
                &&& n <= l ==> forall|c: int|
                    0 <= c < n ==> (#[trigger] cols@[c]).modules@.len() == 1 && cols@[c].modules@[0].position
                        == shown_positions(&p.reg())[c] as usize
            },
            _ => true,
        },
{
    match r {
        ModulesView::Columns(cols) => {
            let n = shown_positions(&p.reg()).len() as int;
            let eff = p.effective_columns();
            let mpc = p.shown_per_column();
            assert(eff >= 1);
            assert(mpc >= 1) by (nonlinear_arith)
                requires
                    mpc == (n + eff - 1) / eff,
                    n >= 1,
                    eff >= 1,
            ;
            assert(p.column_positions(0).len() > 0);
            assert(cols@[0].modules@.len() == p.column_positions(0).len());
            if n <= p@.layout.spec_columns() as int {
                assert(eff == n);
                assert(mpc == 1) by (nonlinear_arith)
                    requires
                        mpc == (n + n - 1) / n,
                        n >= 1,
                ;
                assert forall|c: int| 0 <= c < n implies (#[trigger] cols@[c]).modules@.len() == 1
                    && cols@[c].modules@[0].position == shown_positions(&p.reg())[c] as usize by {
                    assert(c * mpc == c);
                    assert(p.column_positions(c) =~= shown_positions(&p.reg()).subrange(c, c + 1));
                    assert(cols@[c].modules@.len() == p.column_positions(c).len());
                    assert(cols@[c].modules@[0] == p.slot_spec(p.column_positions(c)[0]));
                }
            }
        },
        _ => {},
    }
}

impl<M: PanelModule> Default for Panel<M> {
    /// A new panel (see `new`).
    fn default() -> (r: Self)
        ensures
            r.wf(),
            r.len() == 0,
            forall|k: Seq<char>| !#[trigger] r.reg().has(k),
            r.reg().order_ids().len() == 0,
            r@.running,
            r@.status.len() == 0,
            r@.current == 0,
            r@.layout == LayoutMode::Single,
            r@.weights == seq![10u16],
            !r@.show_about,
            !r@.show_settings,
            r@.cursor == 0,
            r@.deltas.len() == 0,
            r@.theme == 0,
    {
        Self::new()
    }
}

/// Moving the selection up or down lands on a shown module (or does not move).
pub proof fn law_selection_lands_on_shown<M: PanelModule>(
    pre: &Panel<M>,
    post: &Panel<M>,
    key: Key,
    cmd: PanelCommand,
)
    requires
        pre.wf(),
        !pre@.show_settings,
        key == Key::Up || key == Key::Down,
        Panel::<M>::key_step(pre, post, key, cmd),
    ensures
        post@.current == pre@.current || shown_at(&post.reg(), post@.current),
{
    lemma_prev_shown_is_shown(&pre.reg(), pre@.current);
    lemma_next_shown_is_shown(&pre.reg(), pre@.current + 1, pre.len());
}

/// `+` never sets an interval above 300 seconds, and `-` never pauses a module:
/// its interval stays at least 1 second.
pub proof fn law_interval_keys_bounded<M: PanelModule>(
    pre: &Panel<M>,
    post: &Panel<M>,
    c: char,
    cmd: PanelCommand,
)
    requires
        pre.wf(),
        !pre@.show_settings,
        c == '+' || c == '-',
        pre.has_current(),
        Panel::<M>::key_step(pre, post, Key::Char(c), cmd),
    ensures
        c == '+' ==> effective_interval(&post.reg().module_of(pre.current_id())) <= 300,
        c == '-' ==> effective_interval(&post.reg().module_of(pre.current_id())) >= 1,
{
}

/// Each module keeps its own interval: `+`, `=`, `-` and space change the
/// selected module and leave every other module as it was.
pub proof fn law_interval_keys_touch_only_current<M: PanelModule>(
    pre: &Panel<M>,
    post: &Panel<M>,
    c: char,
    cmd: PanelCommand,
    k: Seq<char>,
)
    requires
        pre.wf(),
        !pre@.show_settings,
        c == '+' || c == '=' || c == '-' || c == ' ',
        pre.has_current(),
        Panel::<M>::key_step(pre, post, Key::Char(c), cmd),
        pre.reg().has(k),
        k != pre.current_id(),
    ensures
        post.reg().has(k),
        post.reg().module_of(k) == pre.reg().module_of(k),
        post.reg().visible_of(k) == pre.reg().visible_of(k),
        post.reg().order_ids() == pre.reg().order_ids(),
{
    assert(pre.reg().id_set().contains(k));
    assert(post.reg().id_set().contains(k));
    assert(post.reg().has(k));
    assert(post.reg().module_of(k) == pre.reg().module_of(k));
}

/// Three presses of `l` come back to the layout, with every column weight 10.
pub proof fn law_layout_key_cycle<M: PanelModule>(
    a: &Panel<M>,
    b: &Panel<M>,
    c: &Panel<M>,
    d: &Panel<M>,
    x: PanelCommand,
    y: PanelCommand,
    z: PanelCommand,
)
    requires
        a.wf(),
        !a@.show_settings,
        Panel::<M>::key_step(a, b, Key::Char('l'), x),
        Panel::<M>::key_step(b, c, Key::Char('l'), y),
        Panel::<M>::key_step(c, d, Key::Char('l'), z),
    ensures
        d@.layout == a@.layout,
        d.reg() == a.reg(),
        d@.current == a@.current,
        forall|i: int| 0 <= i < d@.weights.len() ==> d@.weights[i] == 10,
        d@.weights.len() == a@.layout.spec_columns(),
{
    law_layout_cycle(a@.layout);
}

/// Pressing Esc twice outside the settings leaves the about page as it was.
pub proof fn law_about_toggle_twice<M: PanelModule>(
    a: &Panel<M>,
    b: &Panel<M>,
    c: &Panel<M>,
    x: PanelCommand,
    y: PanelCommand,
)
    requires
        !a@.show_settings,
        Panel::<M>::key_step(a, b, Key::Esc, x),
        Panel::<M>::key_step(b, c, Key::Esc, y),
    ensures
        c@.show_about == a@.show_about,
        c.reg() == a.reg(),
{
}

/// In the settings, pressing space twice on a registered module leaves its
/// switch as it was.
pub proof fn law_settings_switch_twice<M: PanelModule>(
    a: &Panel<M>,
    b: &Panel<M>,
    c: &Panel<M>,
    x: PanelCommand,
    y: PanelCommand,
)
    requires
        a@.show_settings,
        a@.cursor < a.reg().order_ids().len(),
        a.reg().has(a.reg().order_ids()[a@.cursor]),
        Panel::<M>::key_step(a, b, Key::Char(' '), x),
        Panel::<M>::key_step(b, c, Key::Char(' '), y),
    ensures
        c.reg().visible_of(a.reg().order_ids()[a@.cursor]) == a.reg().visible_of(
            a.reg().order_ids()[a@.cursor],
        ),
        c@ == a@,
{
    let id = a.reg().order_ids()[a@.cursor];
    assert(b.reg().id_set() == a.reg().id_set());
    assert(a.reg().id_set().contains(id));
    assert(b.reg().has(id));
}

} // verus!
