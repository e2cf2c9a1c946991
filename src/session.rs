//! The session controller: the ordered tabs of open documents and the focus.
//!
//! `OpenedApplication` is the single owner of the session. Each command is a
//! step from one `SessionState` to the next, stated by the spec functions of
//! `SessionState` and met exactly by the executable methods.
use vstd::prelude::*;

verus! {

/// The largest scroll offset a view can hold.
pub const MAX_OFFSET: u16 = 65535;

/// One open document: its canonical path and how far it is scrolled.
pub struct MarkdownView {
    pub file_path: String,
    pub offset: u16,
}

/// The model of a view.
pub struct BufferState {
    pub path: Seq<char>,
    pub offset: u16,
}

impl View for MarkdownView {
    type V = BufferState;

    open spec fn view(&self) -> BufferState {
        BufferState { path: self.file_path@, offset: self.offset }
    }
}

/// `offset` moved by `steps`, saturating at zero and at `MAX_OFFSET`.
pub open spec fn offset_after(offset: u16, steps: i16) -> u16 {
    let v = offset as int + steps as int;
    if v < 0 {
        0
    } else if v > MAX_OFFSET as int {
        MAX_OFFSET
    } else {
        v as u16
    }
}

impl MarkdownView {
    /// A view of `file_path`, scrolled to the top.
    pub fn new(file_path: String) -> (v: MarkdownView)
        ensures
            v@ == (BufferState { path: file_path@, offset: 0 }),
    {
        MarkdownView { file_path, offset: 0 }
    }

    pub fn get_offset(&self) -> (r: u16)
        ensures
            r == self.offset,
    {
        self.offset
    }

    /// Scrolls by `steps` lines; never above the top, never past `MAX_OFFSET`.
    pub fn set_offset(&mut self, steps: i16)
        ensures
            final(self)@ == (BufferState {
                offset: offset_after(old(self).offset, steps),
                ..old(self)@
            }),
    {
        let v: i32 = self.offset as i32 + steps as i32;
        if v < 0 {
            self.offset = 0;
        } else if v > MAX_OFFSET as i32 {
            self.offset = MAX_OFFSET;
        } else {
            self.offset = v as u16;
        }
    }
}

/// A change to the set of open views, reported from outside the keyboard.
#[derive(Debug, PartialEq, Eq)]
pub enum UpdateView {
    /// The file at this canonical path was removed.
    Remove(String),
    /// The file at this canonical path was written and closed.
    Reload(String),
    /// The terminal changed size.
    Resize,
}

/// A unit of intent for the session, as produced by the input sources.
#[derive(Debug, PartialEq, Eq)]
pub enum Command {
    Close,
    Update(UpdateView),
    NextView,
    PrevView,
    Scroll(i16),
}

/// A command named a path that the session never opened.
#[derive(Debug, PartialEq, Eq)]
pub struct ConsistencyError {
    pub path: String,
}

/// What the driver of the session does after a command.
#[derive(Debug, PartialEq, Eq, Structural, Clone, Copy)]
pub enum Outcome {
    /// Draw the session again.
    Redraw,
    /// Leave: the user asked to close.
    Close,
    /// Leave: every open file has gone.
    AllViewsRemoved,
}

/// The model of a session.
pub struct SessionState {
    /// The open views, in tab order.
    pub views: Seq<BufferState>,
    /// The position of the focused view.
    pub focus: int,
    /// Every path the session was opened with.
    pub known: Seq<Seq<char>>,
}

/// The paths of `views`, in order.
pub open spec fn paths_of(views: Seq<BufferState>) -> Seq<Seq<char>> {
    views.map_values(|b: BufferState| b.path)
}

impl SessionState {
    /// A session over `paths`, each scrolled to the top, the first focused.
    pub open spec fn initial(paths: Seq<Seq<char>>) -> SessionState {
        SessionState {
            views: paths.map_values(|p: Seq<char>| BufferState { path: p, offset: 0 }),
            focus: 0,
            known: paths,
        }
    }

    /// The focus lies on a view, or at zero once no view is left; every open
    /// path is one the session was opened with.
    pub open spec fn wf(self) -> bool {
        &&& 0 <= self.focus
        &&& self.views.len() > 0 ==> self.focus < self.views.len()
        &&& self.views.len() == 0 ==> self.focus == 0
        &&& forall|i: int|
            0 <= i < self.views.len() ==> self.known.contains(#[trigger] self.views[i].path)
    }

    /// Once no view is left the session is over.
    pub open spec fn is_closed(self) -> bool {
        self.views.len() == 0
    }

    pub open spec fn select_next(self) -> SessionState {
        if self.focus + 1 < self.views.len() {
            SessionState { focus: self.focus + 1, ..self }
        } else {
            self
        }
    }

    pub open spec fn select_prev(self) -> SessionState {
        if self.focus > 0 {
            SessionState { focus: self.focus - 1, ..self }
        } else {
            self
        }
    }

    /// The focused view scrolled by `steps`.
    pub open spec fn scroll(self, steps: i16) -> SessionState {
        if 0 <= self.focus < self.views.len() {
            let b = self.views[self.focus];
            SessionState {
                views: self.views.update(
                    self.focus,
                    BufferState { offset: offset_after(b.offset, steps), ..b },
                ),
                ..self
            }
        } else {
            self
        }
    }

    /// The view at `i` removed; a focus at or past the end moves to the last view.
    pub open spec fn remove_at(self, i: int) -> SessionState {
        let views = self.views.remove(i);
        SessionState {
            views,
            focus: if views.len() == 0 {
                0
            } else if self.focus < views.len() {
                self.focus
            } else {
                views.len() - 1
            },
            known: self.known,
        }
    }

    /// The first view of `path` removed, if there is one.
    pub open spec fn remove_path(self, path: Seq<char>) -> SessionState {
        match paths_of(self.views).index_of_first(path) {
            Some(i) => self.remove_at(i),
            None => self,
        }
    }

    /// The first view of `path` focused, if there is one.
    pub open spec fn reload_path(self, path: Seq<char>) -> SessionState {
        match paths_of(self.views).index_of_first(path) {
            Some(i) => SessionState { focus: i, ..self },
            None => self,
        }
    }

    /// A removal of `path` is inconsistent: the session was never opened on it.
    pub open spec fn removal_fails(self, path: Seq<char>) -> bool {
        !paths_of(self.views).contains(path) && !self.known.contains(path)
    }

    /// A removal of `path` takes the last open view away.
    pub open spec fn removal_closes(self, path: Seq<char>) -> bool {
        paths_of(self.views).contains(path) && self.views.len() == 1
    }

    /// A reload of `path` is inconsistent: no open view has that path.
    pub open spec fn reload_fails(self, path: Seq<char>) -> bool {
        !paths_of(self.views).contains(path)
    }

    pub open spec fn update_fails(self, u: UpdateView) -> bool {
        match u {
            UpdateView::Remove(p) => self.removal_fails(p@),
            UpdateView::Reload(p) => self.reload_fails(p@),
            UpdateView::Resize => false,
        }
    }

    pub open spec fn update_closes(self, u: UpdateView) -> bool {
        match u {
            UpdateView::Remove(p) => self.removal_closes(p@),
            _ => false,
        }
    }

    /// The session after `u`, where `u` does not fail.
    pub open spec fn after_update(self, u: UpdateView) -> SessionState {
        match u {
            UpdateView::Remove(p) => self.remove_path(p@),
            UpdateView::Reload(p) => self.reload_path(p@),
            UpdateView::Resize => self,
        }
    }

    pub open spec fn command_fails(self, c: Command) -> bool {
        match c {
            Command::Update(u) => self.update_fails(u),
            _ => false,
        }
    }

    /// The session after command `c`; a failing command changes nothing.
    pub open spec fn apply(self, c: Command) -> SessionState {
        match c {
            Command::Close => self,
            Command::NextView => self.select_next(),
            Command::PrevView => self.select_prev(),
            Command::Scroll(steps) => self.scroll(steps),
            Command::Update(u) => if self.update_fails(u) {
                self
            } else {
                self.after_update(u)
            },
        }
    }

    /// What the driver does after command `c`, where `c` does not fail.
    pub open spec fn outcome_of(self, c: Command) -> Outcome {
        match c {
            Command::Close => Outcome::Close,
            Command::Update(u) => if self.update_closes(u) {
                Outcome::AllViewsRemoved
            } else {
                Outcome::Redraw
            },
            _ => Outcome::Redraw,
        }
    }
}

/// The session before it is opened and after it is closed.
pub struct ClosedApplication;

/// An open session: the views in tab order, the focus, and the paths it was
/// opened with.
pub struct OpenedApplication {
    focused_view_idx: usize,
    markdown_views: Vec<MarkdownView>,
    opened_paths: Vec<String>,
}

impl View for OpenedApplication {
    type V = SessionState;

    closed spec fn view(&self) -> SessionState {
        SessionState {
            views: self.markdown_views@.map_values(|v: MarkdownView| v@),
            focus: self.focused_view_idx as int,
            known: self.opened_paths@.map_values(|s: String| s@),
        }
    }
}

/// The models of a sequence of strings.
pub open spec fn string_views(paths: Seq<String>) -> Seq<Seq<char>> {
    paths.map_values(|s: String| s@)
}

impl ClosedApplication {
    /// Opens a session on `file_paths`, each a canonical path, the first focused.
    pub fn open(file_paths: Vec<String>) -> (app: OpenedApplication)
        ensures
            app@ == SessionState::initial(string_views(file_paths@)),
            app@.wf(),
    {
        let mut markdown_views: Vec<MarkdownView> = Vec::new();
        let n = file_paths.len();
        let mut i: usize = 0;
        while i < n
            invariant
                n == file_paths@.len(),
                i <= n,
                markdown_views@.map_values(|v: MarkdownView| v@) == string_views(
                    file_paths@.take(i as int),
                ).map_values(|p: Seq<char>| BufferState { path: p, offset: 0 }),
            decreases n - i,
        {
            let ghost before = markdown_views@;
            markdown_views.push(MarkdownView::new(file_paths[i].clone()));
            assert(markdown_views@.map_values(|v: MarkdownView| v@) =~= before.map_values(
                |v: MarkdownView| v@,
            ).push(BufferState { path: file_paths@[i as int]@, offset: 0 }));
            assert(string_views(file_paths@.take(i + 1)) =~= string_views(
                file_paths@.take(i as int),
            ).push(file_paths@[i as int]@));
            i = i + 1;
        }
        assert(file_paths@.take(n as int) =~= file_paths@);
        let app = OpenedApplication { focused_view_idx: 0, markdown_views, opened_paths: file_paths };
        proof {
            let s = app@;
            assert forall|k: int| 0 <= k < s.views.len() implies s.known.contains(
                #[trigger] s.views[k].path,
            ) by {
                assert(s.known[k] == s.views[k].path);
            }
        }
        app
    }
}

impl OpenedApplication {
    /// Ends the session.
    pub fn close(self) -> (closed: ClosedApplication) {
        ClosedApplication
    }

    /// The position of the first open view of `path`.
    fn find_view(&self, path: &String) -> (r: Option<usize>)
        ensures
            r matches Some(i) ==> paths_of(self@.views).index_of_first(path@) == Some(i as int),
            r is None ==> paths_of(self@.views).index_of_first(path@) is None,
    {
        let ghost paths = paths_of(self@.views);
        proof {
            paths.index_of_first_ensures(path@);
        }
        let n = self.markdown_views.len();
        let mut i: usize = 0;
        while i < n
            invariant
                n == self.markdown_views@.len(),
                paths == paths_of(self@.views),
                paths.len() == n,
                i <= n,
                forall|j: int| 0 <= j < i ==> paths[j] != path@,
                forall|j: int| 0 <= j < n ==> paths[j] == #[trigger] self.markdown_views@[j].file_path@,
            decreases n - i,
        {
            if self.markdown_views[i].file_path == *path {
                proof {
                    paths.index_of_first_ensures(path@);
                }
                return Some(i);
            }
            i = i + 1;
        }
        proof {
            paths.index_of_first_ensures(path@);
        }
        None
    }

    /// Whether the session was opened on `path`.
    fn is_known(&self, path: &String) -> (r: bool)
        ensures
            r == self@.known.contains(path@),
    {
        let n = self.opened_paths.len();
        let mut i: usize = 0;
        while i < n
            invariant
                n == self.opened_paths@.len(),
                i <= n,
                forall|j: int| 0 <= j < i ==> self@.known[j] != path@,
                self@.known.len() == n,
                forall|j: int| 0 <= j < n ==> self@.known[j] == #[trigger] self.opened_paths@[j]@,
            decreases n - i,
        {
            if self.opened_paths[i] == *path {
                assert(self@.known[i as int] == path@);
                return true;
            }
            i = i + 1;
        }
        false
    }

    /// Focuses the next tab; at the last tab nothing changes.
    pub fn select_next_view(&mut self)
        requires
            old(self)@.wf(),
        ensures
            final(self)@ == old(self)@.select_next(),
            final(self)@.wf(),
    {
        if self.focused_view_idx < self.markdown_views.len()
            && self.focused_view_idx + 1 < self.markdown_views.len() {
            self.focused_view_idx = self.focused_view_idx + 1;
        }
    }

    /// Focuses the previous tab; at the first tab nothing changes.
    pub fn select_prev_view(&mut self)
        requires
            old(self)@.wf(),
        ensures
            final(self)@ == old(self)@.select_prev(),
            final(self)@.wf(),
    {
        if self.focused_view_idx > 0 {
            self.focused_view_idx = self.focused_view_idx - 1;
        }
    }

    /// Scrolls the focused view by `steps` lines, never above its top.
    pub fn scroll_markdown_view(&mut self, steps: i16)
        requires
            old(self)@.wf(),
        ensures
            final(self)@ == old(self)@.scroll(steps),
            final(self)@.wf(),
    {
        let i = self.focused_view_idx;
        if i < self.markdown_views.len() {
            self.markdown_views[i].set_offset(steps);
            assert(self.markdown_views@.map_values(|v: MarkdownView| v@) =~= old(self)@.scroll(
                steps,
            ).views);
        }
    }
    /// Removes the view at `i`; a focus at or past the end moves to the last view.
    fn remove_view(&mut self, i: usize)
        requires
            old(self)@.wf(),
            i < old(self)@.views.len(),
        ensures
            final(self)@ == old(self)@.remove_at(i as int),
            final(self)@.wf(),
    {
        self.markdown_views.remove(i);
        let len = self.markdown_views.len();
        if len == 0 {
            self.focused_view_idx = 0;
        } else if self.focused_view_idx >= len {
            self.focused_view_idx = len - 1;
        }
        assert(self.markdown_views@.map_values(|v: MarkdownView| v@) =~= old(self)@.views.remove(
            i as int,
        ));
        proof {
            lemma_remove_at_keeps_wf(old(self)@, i as int);
        }
    }

    /// Applies a change reported from outside the keyboard.
    ///
    /// `Remove` drops the first view of the path; when none is left the
    /// result is `Some(Command::Close)`. A removal of a path that the session
    /// opened but no longer shows changes nothing. `Reload` focuses the first
    /// view of the path. A path that the session does not explain is a
    /// `ConsistencyError`, and then nothing changes.
    pub fn update_view(&mut self, update: UpdateView) -> (r: Result<
        Option<Command>,
        ConsistencyError,
    >)
        requires
            old(self)@.wf(),
        ensures
            final(self)@.wf(),
            r is Err <==> old(self)@.update_fails(update),
            r matches Err(e) ==> final(self)@ == old(self)@,
            r matches Err(e) ==> (update matches UpdateView::Remove(p) ==> e.path@ == p@),
            r matches Err(e) ==> (update matches UpdateView::Reload(p) ==> e.path@ == p@),
            r matches Ok(o) ==> final(self)@ == old(self)@.after_update(update),
            r matches Ok(o) ==> o == (if old(self)@.update_closes(update) {
                Some(Command::Close)
            } else {
                None
            }),
    {
        let ghost paths = paths_of(old(self)@.views);
        match update {
            UpdateView::Remove(path) => {
                proof {
                    paths.index_of_first_ensures(path@);
                }
                match self.find_view(&path) {
                    Some(i) => {
                        self.remove_view(i);
                        if self.markdown_views.len() == 0 {
                            Ok(Some(Command::Close))
                        } else {
                            Ok(None)
                        }
                    },
                    None => {
                        if self.is_known(&path) {
                            Ok(None)
                        } else {
                            Err(ConsistencyError { path })
                        }
                    },
                }
            },
            UpdateView::Reload(path) => {
                proof {
                    paths.index_of_first_ensures(path@);
                }
                match self.find_view(&path) {
                    Some(i) => {
                        self.focused_view_idx = i;
                        Ok(None)
                    },
                    None => Err(ConsistencyError { path }),
                }
            },
            UpdateView::Resize => Ok(None),
        }
    }

    /// Processes one command: the state changes as `SessionState::apply`
    /// says, and the result tells the driver whether to draw or to leave.
    pub fn process_command(&mut self, command: Command) -> (r: Result<Outcome, ConsistencyError>)
        requires
            old(self)@.wf(),
        ensures
            final(self)@.wf(),
            r is Err <==> old(self)@.command_fails(command),
            final(self)@ == old(self)@.apply(command),
            r matches Ok(o) ==> o == old(self)@.outcome_of(command),
    {
        match command {
            Command::Close => Ok(Outcome::Close),
            Command::NextView => {
                self.select_next_view();
                Ok(Outcome::Redraw)
            },
            Command::PrevView => {
                self.select_prev_view();
                Ok(Outcome::Redraw)
            },
            Command::Scroll(steps) => {
                self.scroll_markdown_view(steps);
                Ok(Outcome::Redraw)
            },
            Command::Update(update) => match self.update_view(update) {
                Ok(Some(_)) => Ok(Outcome::AllViewsRemoved),
                Ok(None) => Ok(Outcome::Redraw),
                Err(e) => Err(e),
            },
        }
    }
}

/// Removing a view keeps a session well formed.
proof fn lemma_remove_at_keeps_wf(s: SessionState, i: int)
    requires
        s.wf(),
        0 <= i < s.views.len(),
    ensures
        s.remove_at(i).wf(),
{
    s.views.remove_ensures(i);
    let t = s.remove_at(i);
    assert forall|k: int| 0 <= k < t.views.len() implies t.known.contains(
        #[trigger] t.views[k].path,
    ) by {
        if k < i {
            assert(t.views[k] == s.views[k]);
        } else {
            assert(t.views[k] == s.views[k + 1]);
        }
    }
}

impl SessionState {
    /// The session after each of `cmds` in turn.
    pub open spec fn apply_all(self, cmds: Seq<Command>) -> SessionState
        decreases cmds.len(),
    {
        if cmds.len() == 0 {
            self
        } else {
            self.apply(cmds[0]).apply_all(cmds.drop_first())
        }
    }

    /// The path removed at the first step of `picks`: that of the view at
    /// position `picks[0]`.
    pub open spec fn picked_path(self, picks: Seq<int>) -> Seq<char> {
        self.views[picks[0]].path
    }

    /// For each step of removing, one at a time, the path of the view at
    /// position `picks[k]` of the session as it stands then: whether that
    /// removal closes the session.
    pub open spec fn removal_signals(self, picks: Seq<int>) -> Seq<bool>
        decreases picks.len(),
    {
        if picks.len() == 0 {
            Seq::empty()
        } else {
            let p = self.picked_path(picks);
            seq![self.removal_closes(p)] + self.remove_path(p).removal_signals(picks.drop_first())
        }
    }

    /// Whether no step of those removals fails.
    pub open spec fn removals_succeed(self, picks: Seq<int>) -> bool
        decreases picks.len(),
    {
        if picks.len() == 0 {
            true
        } else {
            let p = self.picked_path(picks);
            !self.removal_fails(p) && self.remove_path(p).removals_succeed(picks.drop_first())
        }
    }

    /// The session after those removals.
    pub open spec fn after_removals(self, picks: Seq<int>) -> SessionState
        decreases picks.len(),
    {
        if picks.len() == 0 {
            self
        } else {
            self.remove_path(self.picked_path(picks)).after_removals(picks.drop_first())
        }
    }
}

/// Every command keeps a session well formed.
pub proof fn lemma_apply_keeps_wf(s: SessionState, c: Command)
    requires
        s.wf(),
    ensures
        s.apply(c).wf(),
{
    match c {
        Command::Scroll(steps) => {
            let t = s.apply(c);
            assert forall|k: int| 0 <= k < t.views.len() implies t.known.contains(
                #[trigger] t.views[k].path,
            ) by {
                assert(t.views[k].path == s.views[k].path);
            }
        },
        Command::Update(u) => {
            if !s.update_fails(u) {
                match u {
                    UpdateView::Remove(p) => {
                        paths_of(s.views).index_of_first_ensures(p@);
                        if let Some(i) = paths_of(s.views).index_of_first(p@) {
                            lemma_remove_at_keeps_wf(s, i);
                        }
                    },
                    UpdateView::Reload(p) => {
                        paths_of(s.views).index_of_first_ensures(p@);
                    },
                    UpdateView::Resize => {},
                }
            }
        },
        _ => {},
    }
}

/// Focus stays in range: after any sequence of commands from a well-formed
/// session, the focus lies on an open view whenever one is left.
pub proof fn lemma_focus_stays_in_range(s: SessionState, cmds: Seq<Command>)
    requires
        s.wf(),
    ensures
        s.apply_all(cmds).wf(),
        s.apply_all(cmds).views.len() > 0 ==> 0 <= s.apply_all(cmds).focus < s.apply_all(
            cmds,
        ).views.len(),
    decreases cmds.len(),
{
    if cmds.len() > 0 {
        lemma_apply_keeps_wf(s, cmds[0]);
        lemma_focus_stays_in_range(s.apply(cmds[0]), cmds.drop_first());
    }
}

/// Selecting past either end is a no-op: `select_next` at the last tab and
/// `select_prev` at the first leave the session unchanged.
pub proof fn lemma_select_at_edges_is_noop(s: SessionState)
    requires
        s.wf(),
        s.views.len() > 0,
    ensures
        s.focus == s.views.len() - 1 ==> s.select_next() == s,
        s.focus == 0 ==> s.select_prev() == s,
{
}

/// Scrolling never goes above the top: however large a negative step, the
/// focused offset stops at zero, and otherwise moves by exactly the step
/// (up to the largest offset).
pub proof fn lemma_scroll_stops_at_top(s: SessionState, steps: i16)
    requires
        s.wf(),
        s.views.len() > 0,
    ensures
        s.scroll(steps).views.len() == s.views.len(),
        s.scroll(steps).focus == s.focus,
        s.scroll(steps).views[s.focus].offset >= 0,
        s.views[s.focus].offset + steps <= 0 ==> s.scroll(steps).views[s.focus].offset == 0,
        0 <= s.views[s.focus].offset + steps <= MAX_OFFSET ==> s.scroll(steps).views[s.focus].offset
            == s.views[s.focus].offset + steps,
{
}

proof fn lemma_removals_from(s: SessionState, picks: Seq<int>)
    requires
        s.wf(),
        picks.len() == s.views.len(),
        forall|k: int| 0 <= k < picks.len() ==> 0 <= #[trigger] picks[k] < s.views.len() - k,
    ensures
        s.removals_succeed(picks),
        s.removal_signals(picks).len() == picks.len(),
        forall|k: int|
            0 <= k < picks.len() ==> (#[trigger] s.removal_signals(picks)[k] <==> k == picks.len()
                - 1),
        s.after_removals(picks).views.len() == 0,
    decreases picks.len(),
{
    if picks.len() > 0 {
        let p = s.picked_path(picks);
        let paths = paths_of(s.views);
        assert(paths[picks[0]] == p);
        paths.index_of_first_ensures(p);
        let i = paths.index_of_first(p).unwrap();
        s.views.remove_ensures(i);
        lemma_remove_at_keeps_wf(s, i);
        let t = s.remove_path(p);
        let rest = picks.drop_first();
        assert forall|k: int| 0 <= k < rest.len() implies 0 <= #[trigger] rest[k] < t.views.len()
            - k by {
            assert(rest[k] == picks[k + 1]);
        }
        lemma_removals_from(t, rest);
        let sig = s.removal_signals(picks);
        assert forall|k: int| 0 <= k < picks.len() implies (#[trigger] sig[k] <==> k
            == picks.len() - 1) by {
            if k > 0 {
                assert(sig[k] == t.removal_signals(rest)[k - 1]);
            }
        }
    }
}

/// Removing every open view, one removal at a time and in any order, closes
/// the session exactly once, at the last removal, whatever the focus was:
/// `picks[k]` is the position, in the session as it stands at step `k`, of the
/// view whose path is removed then.
pub proof fn lemma_removing_every_view_closes_once(s: SessionState, picks: Seq<int>)
    requires
        s.wf(),
        s.views.len() > 0,
        picks.len() == s.views.len(),
        forall|k: int| 0 <= k < picks.len() ==> 0 <= #[trigger] picks[k] < s.views.len() - k,
    ensures
        s.removals_succeed(picks),
        s.removal_signals(picks).len() == picks.len(),
        forall|k: int|
            0 <= k < picks.len() ==> (#[trigger] s.removal_signals(picks)[k] <==> k == picks.len()
                - 1),
        s.after_removals(picks).is_closed(),
{
    lemma_removals_from(s, picks);
}

/// One entry of the tab strip.
#[derive(Debug, PartialEq, Eq)]
pub struct Tab {
    pub path: String,
    pub focused: bool,
}

impl OpenedApplication {
    /// The position of the focused view.
    pub fn focus_index(&self) -> (r: usize)
        ensures
            r == self@.focus,
    {
        self.focused_view_idx
    }

    /// How many views are open.
    pub fn view_count(&self) -> (r: usize)
        ensures
            r == self@.views.len(),
    {
        self.markdown_views.len()
    }

    /// Whether every view has gone.
    pub fn is_closed(&self) -> (r: bool)
        ensures
            r == self@.is_closed(),
    {
        self.markdown_views.len() == 0
    }

    /// The view at position `i`.
    pub fn view_at(&self, i: usize) -> (r: &MarkdownView)
        requires
            i < self@.views.len(),
        ensures
            r@ == self@.views[i as int],
    {
        &self.markdown_views[i]
    }

    /// The focused view, unless every view has gone.
    pub fn focused_view(&self) -> (r: Option<&MarkdownView>)
        requires
            self@.wf(),
        ensures
            self@.views.len() == 0 ==> r is None,
            self@.views.len() > 0 ==> (r matches Some(v) && v@ == self@.views[self@.focus]),
    {
        if self.focused_view_idx < self.markdown_views.len() {
            Some(&self.markdown_views[self.focused_view_idx])
        } else {
            None
        }
    }

    /// The tab strip: one tab per view, in order, the focused one marked.
    pub fn tabs(&self) -> (r: Vec<Tab>)
        ensures
            r@.len() == self@.views.len(),
            forall|i: int|
                0 <= i < r@.len() ==> (#[trigger] r@[i]).path@ == self@.views[i].path
                    && r@[i].focused == (i == self@.focus),
    {
        let mut tabs: Vec<Tab> = Vec::new();
        let n = self.markdown_views.len();
        let mut i: usize = 0;
        while i < n
            invariant
                n == self@.views.len(),
                i <= n,
                tabs@.len() == i,
                forall|j: int|
                    0 <= j < i ==> (#[trigger] tabs@[j]).path@ == self@.views[j].path
                        && tabs@[j].focused == (j == self@.focus),
            decreases n - i,
        {
            tabs.push(
                Tab {
                    path: self.markdown_views[i].file_path.clone(),
                    focused: i == self.focused_view_idx,
                },
            );
            i = i + 1;
        }
        tabs
    }
}

} // verus!
