//! The editor session: one owned aggregate holding the document model, the
//! derived shadow tree and visible rows, the selection and viewport, the
//! expand-state, the modal input machine, the search state, and the raw
//! fallback lines when the document failed to parse. Row indices are never
//! trusted across a rebuild: the selected row's path is remembered and
//! re-resolved against the new row list.
use vstd::prelude::*;

use crate::doc::YamlModel;
use crate::editline::InputLine;
use crate::input::InputAction;
use crate::input::Mode;
use crate::input::VimInputHandler;
use crate::path::NodePath;
use crate::strset::StrSet;
use crate::strutil::spec_lines;
use crate::strutil::split_lines;
use crate::tree::spec_build;
use crate::tree::TreeNode;
use crate::visible::flatten_visible;
use crate::visible::rows_model;
use crate::visible::spec_flatten;
use crate::visible::visible_row_by_path;
use crate::visible::VisibleRow;

verus! {

/// A transient, auto-expiring notice.
#[derive(Debug)]
pub struct Toast {
    pub message: String,
    pub expires_at_ms: u64,
}

/// One row of the screen hit map the renderer reports back, so pointer
/// events can be translated into row indices without knowing screen geometry.
#[derive(Debug, Clone, Copy, PartialEq, Eq)]
pub struct RowHit {
    pub row_index: usize,
    pub y: u16,
    pub key_x_start: u16,
    pub key_x_end: u16,
}

/// What the caller must do after an action: everything the session itself
/// cannot perform.
#[derive(Debug, PartialEq, Eq)]
pub enum Effect {
    /// Nothing outward.
    Continue,
    /// A confirmed quit.
    Quit,
    /// Serialize the document and write it to the backing file, then report
    /// the result back.
    SaveTree,
    /// Write the raw fallback text to the backing file, then reparse.
    SaveRaw,
    /// Place this text on the clipboard and report the result back.
    CopyText(String),
    /// Leave the editor for the file picker.
    OpenPicker,
}

pub struct App {
    pub model: YamlModel,
    pub mode: Mode,
    pub selection: usize,
    pub scroll: usize,
    pub expanded: StrSet,
    pub visible: Vec<VisibleRow>,
    pub tree_root: TreeNode,
    pub hit_map: Vec<RowHit>,
    pub dirty: bool,
    pub toast: Option<Toast>,
    pub input: InputLine,
    pub pending_key: Option<String>,
    pub search_query: Option<String>,
    pub matches: Vec<usize>,
    pub vim: VimInputHandler,
    /// The parse error message when the document text did not parse.
    pub parse_error: Option<String>,
    /// The document's raw lines while in the fallback mode.
    pub raw: Option<Vec<String>>,
    /// Modification stamp of the backing file when loaded, in milliseconds.
    pub last_modified_ms: Option<u64>,
    /// When the backing file was last polled, in milliseconds.
    pub last_file_check_ms: Option<u64>,
}

/// The view of an optional query string.
pub open spec fn qv(q: Option<String>) -> Option<Seq<char>> {
    match q {
        Some(s) => Some(s@),
        None => None,
    }
}

impl App {
    /// The session's central consistency: the shadow tree is the tree of the
    /// current document, and the visible rows are its flattening under the
    /// current expand-state and query.
    pub open spec fn wf(&self) -> bool {
        &&& self.expanded.wf()
        &&& self.input.wf()
        &&& self.tree_root.model() == spec_build(
            self.model.model(),
            Seq::empty(),
            Seq::empty(),
        )
        &&& rows_model(self.visible@) == spec_flatten(
            self.tree_root.model(),
            self.expanded.model(),
            qv(self.search_query),
        )
    }

    /// Whether the raw fallback mode is active.
    pub open spec fn in_raw_mode(&self) -> bool {
        self.raw is Some
    }

    /// The length of whichever row list is active: raw lines in fallback
    /// mode, visible rows otherwise.
    pub fn visible_len(&self) -> (r: usize)
        ensures
            r == self.spec_visible_len(),
    {
        match &self.raw {
            Some(lines) => lines.len(),
            None => self.visible.len(),
        }
    }

    pub open spec fn spec_visible_len(&self) -> int {
        match self.raw {
            Some(lines) => lines@.len() as int,
            None => self.visible@.len() as int,
        }
    }

    /// A session over freshly parsed document text; on a parse failure the
    /// raw fallback mode is active with the text's lines.
    pub fn from_text(path: String, text: &str) -> (r: App)
        ensures
            r.wf(),
            r.mode == Mode::Normal,
            r.selection == 0,
            r.scroll == 0,
            !r.dirty,
            r.in_raw_mode() == (crate::doc::parse_outcome(text@) is None),
            crate::doc::parse_outcome(text@) is Some ==> r.model.model()
                == crate::doc::parse_outcome(text@)->0,
            r.in_raw_mode() ==> (r.raw matches Some(lines) && lines.deep_view() == spec_lines(
                text@,
            )),
    {
        let (model, parse_error, raw_content) = YamlModel::from_text(path, text);
        let mut expanded = StrSet::new();
        expanded.insert(String::new());
        let tree_root = model.build_tree();
        let visible = flatten_visible(&tree_root, &expanded, None);
        let raw = match raw_content {
            Some(rc) => Some(split_lines(rc.as_str())),
            None => None,
        };
        App {
            model,
            mode: Mode::Normal,
            selection: 0,
            scroll: 0,
            expanded,
            visible,
            tree_root,
            hit_map: Vec::new(),
            dirty: false,
            toast: None,
            input: InputLine::new(),
            pending_key: None,
            search_query: None,
            matches: Vec::new(),
            vim: VimInputHandler::new(),
            parse_error,
            raw,
            last_modified_ms: None,
            last_file_check_ms: None,
        }
    }

    /// A session with no document loaded yet.
    pub fn empty() -> (r: App)
        ensures
            r.wf(),
            r.mode == Mode::Normal,
            r.selection == 0,
            !r.in_raw_mode(),
            r.model.model() == crate::doc::DocV::Mapping(Seq::empty()),
    {
        let model = YamlModel::empty();
        let mut expanded = StrSet::new();
        expanded.insert(String::new());
        let tree_root = model.build_tree();
        let visible = flatten_visible(&tree_root, &expanded, None);
        App {
            model,
            mode: Mode::Normal,
            selection: 0,
            scroll: 0,
            expanded,
            visible,
            tree_root,
            hit_map: Vec::new(),
            dirty: false,
            toast: None,
            input: InputLine::new(),
            pending_key: None,
            search_query: None,
            matches: Vec::new(),
            vim: VimInputHandler::new(),
            parse_error: None,
            raw: None,
            last_modified_ms: None,
            last_file_check_ms: None,
        }
    }

    pub fn current_row(&self) -> (r: Option<&VisibleRow>)
        ensures
            match r {
                Some(row) => self.selection < self.visible@.len() && *row
                    == self.visible@[self.selection as int],
                None => self.selection >= self.visible@.len(),
            },
    {
        if self.selection < self.visible.len() {
            Some(&self.visible[self.selection])
        } else {
            None
        }
    }

    pub fn update_hit_map(&mut self, hits: Vec<RowHit>)
        ensures
            *final (self) == (App { hit_map: final (self).hit_map, ..*old(self) }),
            final (self).hit_map == hits,
    {
        self.hit_map = hits;
    }

    /// Posts a transient notice that expires two seconds after `now_ms`.
    pub fn set_toast(&mut self, message: String, now_ms: u64)
        ensures
            *final (self) == (App { toast: final (self).toast, ..*old(self) }),
            final (self).toast matches Some(t) && t.message@ == message@ && t.expires_at_ms == (
            if now_ms <= u64::MAX - 2000 {
                (now_ms + 2000) as u64
            } else {
                u64::MAX
            }),
    {
        let expires_at_ms: u64 = if now_ms <= u64::MAX - 2000 {
            now_ms + 2000
        } else {
            u64::MAX
        };
        self.toast = Some(Toast { message, expires_at_ms });
    }

    /// Clears the notice once its expiry has passed.
    pub fn update_toast(&mut self, now_ms: u64)
        ensures
            *final (self) == (App { toast: final (self).toast, ..*old(self) }),
            final (self).toast == (match old(self).toast {
                Some(t) => if now_ms >= t.expires_at_ms {
                    Option::<Toast>::None
                } else {
                    old(self).toast
                },
                None => Option::<Toast>::None,
            }),
    {
        let clear = match &self.toast {
            Some(t) => now_ms >= t.expires_at_ms,
            None => false,
        };
        if clear {
            self.toast = None;
        }
    }

    /// Scrolls just enough to keep the selection inside the viewport.
    pub fn ensure_visible(&mut self, area_height: usize)
        ensures
            *final (self) == (App { scroll: final (self).scroll, ..*old(self) }),
            final (self).scroll == spec_ensure_scroll(
                old(self).spec_visible_len(),
                old(self).selection as int,
                old(self).scroll as int,
                area_height as int,
            ),
            viewport_follows(
                old(self).spec_visible_len(),
                old(self).selection as int,
                final (self).scroll as int,
                area_height as int,
            ),
    {
        let len = self.visible_len();
        if len == 0 {
            return ;
        }
        if self.selection < self.scroll {
            self.scroll = self.selection;
        } else if area_height <= self.selection && self.selection - area_height >= self.scroll {
            let back = if area_height > 0 {
                area_height - 1
            } else {
                0
            };
            self.scroll = self.selection - back;
        }
    }

    /// Clamps the selection into the viewport, and into the row list.
    pub fn clamp_selection(&mut self, area_height: usize)
        ensures
            *final (self) == (App { selection: final (self).selection, ..*old(self) }),
            final (self).selection == spec_clamp_selection(
                old(self).spec_visible_len(),
                old(self).selection as int,
                old(self).scroll as int,
                area_height as int,
            ),
    {
        let len = self.visible_len();
        if self.selection < self.scroll {
            self.selection = self.scroll;
        } else if area_height <= self.selection && self.selection - area_height >= self.scroll {
            if area_height > 0 {
                self.selection = self.scroll + (area_height - 1);
            } else {
                self.selection = self.scroll;
            }
            if self.selection >= len {
                self.selection = if len > 0 {
                    len - 1
                } else {
                    0
                };
            }
        }
    }

    /// Moves the selection by one row, clamped to the list.
    pub fn move_selection_down(&mut self, area_height: usize)
        ensures
            *final (self) == (App {
                selection: final (self).selection,
                scroll: final (self).scroll,
                ..*old(self)
            }),
            final (self).scroll == spec_ensure_scroll(
                old(self).spec_visible_len(),
                final (self).selection as int,
                old(self).scroll as int,
                area_height as int,
            ),
            final (self).selection == (if old(self).spec_visible_len() == 0 {
                old(self).selection as int
            } else if old(self).selection + 1 < old(self).spec_visible_len() {
                old(self).selection + 1
            } else {
                old(self).spec_visible_len() - 1
            }),
    {
        let len = self.visible_len();
        if len == 0 {
            return ;
        }
        if self.selection < len - 1 {
            self.selection = self.selection + 1;
        } else {
            self.selection = len - 1;
        }
        self.ensure_visible(area_height);
    }

    pub fn move_selection_up(&mut self, area_height: usize)
        ensures
            *final (self) == (App {
                selection: final (self).selection,
                scroll: final (self).scroll,
                ..*old(self)
            }),
            final (self).scroll == spec_ensure_scroll(
                old(self).spec_visible_len(),
                final (self).selection as int,
                old(self).scroll as int,
                area_height as int,
            ),
            final (self).selection == (if old(self).spec_visible_len() == 0 {
                old(self).selection as int
            } else if old(self).selection > 0 && old(self).selection < old(
                self,
            ).spec_visible_len() {
                old(self).selection - 1
            } else if old(self).selection >= old(self).spec_visible_len() {
                old(self).spec_visible_len() - 1
            } else {
                0int
            }),
    {
        let len = self.visible_len();
        if len == 0 {
            return ;
        }
        if self.selection >= len {
            self.selection = len - 1;
        } else if self.selection > 0 {
            self.selection = self.selection - 1;
        }
        self.ensure_visible(area_height);
    }

    /// Jumps to the first row.
    pub fn jump_top(&mut self)
        ensures
            *final (self) == (App { selection: final (self).selection, ..*old(self) }),
            final (self).selection == 0,
    {
        self.selection = 0;
    }

    /// Jumps to the last row.
    pub fn jump_bottom(&mut self)
        ensures
            *final (self) == (App { selection: final (self).selection, ..*old(self) }),
            final (self).selection == (if old(self).spec_visible_len() > 0 {
                old(self).spec_visible_len() - 1
            } else {
                old(self).selection as int
            }),
    {
        let len = self.visible_len();
        if len > 0 {
            self.selection = len - 1;
        }
    }

    /// Moves the selection by half a page in either direction, clamped.
    pub fn page_scroll(&mut self, area_height: usize, down: bool)
        ensures
            *final (self) == (App {
                selection: final (self).selection,
                scroll: final (self).scroll,
                ..*old(self)
            }),
            final (self).scroll == spec_ensure_scroll(
                old(self).spec_visible_len(),
                final (self).selection as int,
                old(self).scroll as int,
                area_height as int,
            ),
            final (self).selection < old(self).spec_visible_len() || final (self).selection == 0,
    {
        let len = self.visible_len();
        let delta = area_height / 2;
        if down {
            let target = if self.selection <= usize::MAX - delta {
                self.selection + delta
            } else {
                usize::MAX
            };
            self.selection = if len == 0 {
                0
            } else if target < len {
                target
            } else {
                len - 1
            };
        } else {
            let target = if self.selection >= delta {
                self.selection - delta
            } else {
                0
            };
            self.selection = if len == 0 {
                0
            } else if target < len {
                target
            } else {
                len - 1
            };
        }
        self.ensure_visible(area_height);
    }

    /// The selected row's path, remembered across a rebuild.
    pub fn save_selection_path(&self) -> (r: Option<NodePath>)
        ensures
            match r {
                Some(p) => self.selection < self.visible@.len() && p.model()
                    == self.visible@[self.selection as int].model().path,
                None => self.selection >= self.visible@.len(),
            },
    {
        match self.current_row() {
            Some(row) => Some(row.path.clone()),
            None => None,
        }
    }

    /// Re-resolves the selection to the first row with the given path, when
    /// one exists; otherwise the selection is left alone.
    pub fn restore_selection(&mut self, path: Option<NodePath>)
        ensures
            *final (self) == (App { selection: final (self).selection, ..*old(self) }),
            (match path {
                Some(p) => (exists|k: int|
                    0 <= k < old(self).visible@.len() && rows_model(old(self).visible@)[k].path
                        == p.model()) ==> final (self).selection == first_row_index(
                    rows_model(old(self).visible@),
                    p.model(),
                ),
                None => final (self).selection == old(self).selection,
            }),
            (match path {
                Some(p) => !(exists|k: int|
                    0 <= k < old(self).visible@.len() && rows_model(old(self).visible@)[k].path
                        == p.model()) ==> final (self).selection == old(self).selection,
                None => true,
            }),
    {
        match path {
            Some(p) => {
                match visible_row_by_path(&self.visible, &p) {
                    Some(index) => {
                        proof {
                            lemma_first_row_index(rows_model(self.visible@), p.model());
                            assert(rows_model(self.visible@)[index as int].path == p.model());
                        }
                        self.selection = index;
                    },
                    None => {
                        proof {
                            assert(forall|k: int|
                                0 <= k < self.visible@.len() ==> rows_model(self.visible@)[k].path
                                    != p.model());
                        }
                    },
                }
            },
            None => {},
        }
    }
}

/// Where the viewport must scroll to keep the selection visible.
pub open spec fn spec_ensure_scroll(len: int, selection: int, scroll: int, h: int) -> int {
    if len == 0 {
        scroll
    } else if selection < scroll {
        selection
    } else if selection >= scroll + h {
        if h > 0 {
            selection - (h - 1)
        } else {
            selection
        }
    } else {
        scroll
    }
}

/// The selection sits inside the viewport (or there is nothing to show).
pub open spec fn viewport_follows(len: int, selection: int, scroll: int, h: int) -> bool {
    len == 0 || (scroll <= selection && (h > 0 ==> selection < scroll + h))
}

/// Where the selection lands when pulled back into the viewport and list.
pub open spec fn spec_clamp_selection(len: int, selection: int, scroll: int, h: int) -> int {
    if selection < scroll {
        scroll
    } else if h <= selection && selection - h >= scroll {
        let c = if h > 0 {
            scroll + h - 1
        } else {
            scroll
        };
        if c >= len {
            if len > 0 {
                len - 1
            } else {
                0
            }
        } else {
            c
        }
    } else {
        selection
    }
}

/// The first row index carrying the given path, or `-1`.
pub open spec fn first_row_index(rows: Seq<crate::visible::RowV>, p: Seq<crate::path::SegV>) -> int
    decreases rows.len(),
{
    if rows.len() == 0 {
        -1
    } else if rows[0].path == p {
        0
    } else {
        let r = first_row_index(rows.drop_first(), p);
        if r < 0 {
            -1
        } else {
            r + 1
        }
    }
}

pub proof fn lemma_first_row_index(rows: Seq<crate::visible::RowV>, p: Seq<crate::path::SegV>)
    ensures
        first_row_index(rows, p) == -1 ==> forall|k: int|
            0 <= k < rows.len() ==> rows[k].path != p,
        first_row_index(rows, p) >= 0 ==> 0 <= first_row_index(rows, p) < rows.len()
            && rows[first_row_index(rows, p)].path == p && forall|k: int|
            0 <= k < first_row_index(rows, p) ==> rows[k].path != p,
        (exists|k: int| 0 <= k < rows.len() && rows[k].path == p) ==> first_row_index(rows, p)
            >= 0,
    decreases rows.len(),
{
    if rows.len() > 0 && rows[0].path != p {
        lemma_first_row_index(rows.drop_first(), p);
        assert(forall|k: int| 0 <= k < rows.len() - 1 ==> rows.drop_first()[k] == rows[k + 1]);
        if exists|k: int| 0 <= k < rows.len() && rows[k].path == p {
            let k = choose|k: int| 0 <= k < rows.len() && rows[k].path == p;
            assert(rows.drop_first()[k - 1].path == p);
        }
        if first_row_index(rows, p) >= 0 {
            let j = first_row_index(rows, p);
            assert(rows.drop_first()[j - 1] == rows[j]);
            assert forall|k: int| 0 <= k < j implies rows[k].path != p by {
                if k > 0 {
                    assert(rows.drop_first()[k - 1] == rows[k]);
                }
            }
        }
    }
}

impl App {
    /// The raw fallback lines, when the document failed to parse.
    pub fn raw_lines(&self) -> (r: Option<&Vec<String>>)
        ensures
            match r {
                Some(lines) => self.raw matches Some(l) && lines == &l,
                None => self.raw is None,
            },
    {
        match &self.raw {
            Some(lines) => Some(lines),
            None => None,
        }
    }

    /// The raw fallback text: the lines joined by newlines.
    pub fn raw_text(&self) -> (r: Option<String>)
        ensures
            match r {
                Some(t) => self.raw matches Some(lines) && t@ == crate::strutil::spec_join(
                    lines.deep_view(),
                ),
                None => self.raw is None,
            },
    {
        match &self.raw {
            Some(lines) => Some(crate::strutil::join_lines(lines)),
            None => None,
        }
    }

    /// Replaces one raw line with the first line of the given text; out of
    /// range indices are ignored.
    pub fn raw_replace_line(&mut self, line_index: usize, new_line: &str)
        ensures
            *final (self) == (App { raw: final (self).raw, ..*old(self) }),
            final (self).wf() == old(self).wf(),
            (match (old(self).raw, final (self).raw) {
                (Some(ol), Some(nl)) => if line_index < ol@.len() {
                    nl.deep_view() == ol.deep_view().update(
                        line_index as int,
                        first_line_of(new_line@),
                    )
                } else {
                    nl.deep_view() == ol.deep_view()
                },
                (None, None) => true,
                _ => false,
            }),
    {
        let ghost owf = self.wf();
        match &mut self.raw {
            Some(lines) => {
                if line_index < lines.len() {
                    let parts = split_lines(new_line);
                    let first = if parts.len() > 0 {
                        let mut parts = parts;
                        parts.remove(0)
                    } else {
                        String::new()
                    };
                    let ghost before = lines.deep_view();
                    lines.remove(line_index);
                    lines.insert(line_index, first);
                    proof {
                        assert(lines.deep_view() =~= before.update(
                            line_index as int,
                            first_line_of(new_line@),
                        ));
                    }
                }
            },
            None => {},
        }
    }

    /// Removes one raw line, marks the session dirty, and pulls the
    /// selection back into range; out of range indices are ignored.
    pub fn raw_delete_line(&mut self, line_index: usize)
        ensures
            *final (self) == (App {
                raw: final (self).raw,
                dirty: final (self).dirty,
                selection: final (self).selection,
                ..*old(self)
            }),
            final (self).wf() == old(self).wf(),
            (match (old(self).raw, final (self).raw) {
                (Some(ol), Some(nl)) => if line_index < ol@.len() {
                    nl.deep_view() == ol.deep_view().remove(line_index as int) && final (
                    self).dirty && final (self).selection == (if old(self).selection >= nl@.len()
                        && nl@.len() > 0 {
                        nl@.len() - 1
                    } else if nl@.len() == 0 {
                        0int
                    } else {
                        old(self).selection as int
                    })
                } else {
                    nl.deep_view() == ol.deep_view() && final (self).dirty == old(self).dirty
                        && final (self).selection == old(self).selection
                },
                (None, None) => final (self).dirty == old(self).dirty && final (self).selection
                    == old(self).selection,
                _ => false,
            }),
    {
        let mut deleted = false;
        match &mut self.raw {
            Some(lines) => {
                if line_index < lines.len() {
                    let ghost before = lines.deep_view();
                    lines.remove(line_index);
                    proof {
                        assert(lines.deep_view() =~= before.remove(line_index as int));
                    }
                    deleted = true;
                    let n = lines.len();
                    if self.selection >= n && n > 0 {
                        self.selection = n - 1;
                    } else if n == 0 {
                        self.selection = 0;
                    }
                }
            },
            None => {},
        }
        if deleted {
            self.dirty = true;
        }
    }

    /// Rebuilds the shadow tree and the visible rows from the current
    /// document, recomputes the search matches, and re-resolves the
    /// selection by the previously selected row's path rather than its
    /// stale index.
    pub fn rebuild_visible(&mut self)
        requires
            old(self).expanded.wf(),
            old(self).input.wf(),
        ensures
            final (self).wf(),
            *final (self) == (App {
                tree_root: final (self).tree_root,
                visible: final (self).visible,
                matches: final (self).matches,
                selection: final (self).selection,
                ..*old(self)
            }),
            final (self).mode == old(self).mode,
            final (self).model == old(self).model,
            final (self).expanded.model() == old(self).expanded.model(),
            final (self).search_query == old(self).search_query,
            final (self).dirty == old(self).dirty,
            final (self).raw == old(self).raw,
            final (self).selection < final (self).visible@.len() || final (self).visible@.len()
                == 0,
            (final (self).search_query matches Some(q) ==> crate::search::matches_ok(
                final (self).matches@,
                rows_model(final (self).visible@),
                q@,
            )),
            final (self).search_query is None ==> final (self).matches == old(self).matches,
            (old(self).selection < old(self).visible@.len() && (exists|k: int|
                0 <= k < final (self).visible@.len() && rows_model(final (self).visible@)[k].path
                    == rows_model(old(self).visible@)[old(self).selection as int].path)
                ==> final (self).selection == first_row_index(
                rows_model(final (self).visible@),
                rows_model(old(self).visible@)[old(self).selection as int].path,
            )),
    {
        let saved = self.save_selection_path();
        let tree = self.model.build_tree();
        let rows = flatten_visible(
            &tree,
            &self.expanded,
            match &self.search_query {
                Some(q) => Some(q.as_str()),
                None => None,
            },
        );
        self.tree_root = tree;
        self.visible = rows;
        let ms = match &self.search_query {
            Some(q) => compute_matches(&self.visible, q.as_str()),
            None => Vec::new(),
        };
        if self.search_query.is_some() {
            self.matches = ms;
        }
        self.restore_selection(saved);
        let n = self.visible.len();
        if self.selection >= n {
            self.selection = if n > 0 {
                n - 1
            } else {
                0
            };
        }
        proof {
            if old(self).selection < old(self).visible@.len() {
                let p = rows_model(old(self).visible@)[old(self).selection as int].path;
                lemma_first_row_index(rows_model(self.visible@), p);
            }
        }
    }

    /// Expands the selected container and rebuilds the rows.
    pub fn expand_selected(&mut self)
        requires
            old(self).wf(),
        ensures
            final (self).wf(),
            final (self).mode == old(self).mode,
            (old(self).selection < old(self).visible@.len() && rows_model(
                old(self).visible@,
            )[old(self).selection as int].is_container ==> final (self).expanded.model() == old(
                self,
            ).expanded.model().insert(
                crate::path::spec_dot_path(
                    rows_model(old(self).visible@)[old(self).selection as int].path,
                ),
            )),
    {
        let mut dot: Option<String> = None;
        match self.current_row() {
            Some(row) => {
                if row.is_container {
                    dot = Some(row.path.dot_path());
                }
            },
            None => {},
        }
        match dot {
            Some(d) => {
                self.expanded.insert(d);
                self.rebuild_visible();
            },
            None => {},
        }
    }

    /// Collapses the selected container and rebuilds the rows.
    pub fn collapse_selected(&mut self)
        requires
            old(self).wf(),
        ensures
            final (self).wf(),
            final (self).mode == old(self).mode,
            (old(self).selection < old(self).visible@.len() && rows_model(
                old(self).visible@,
            )[old(self).selection as int].is_container ==> final (self).expanded.model() == old(
                self,
            ).expanded.model().remove(
                crate::path::spec_dot_path(
                    rows_model(old(self).visible@)[old(self).selection as int].path,
                ),
            )),
    {
        let mut dot: Option<String> = None;
        match self.current_row() {
            Some(row) => {
                if row.is_container {
                    dot = Some(row.path.dot_path());
                }
            },
            None => {},
        }
        match dot {
            Some(d) => {
                self.expanded.remove(d.as_str());
                self.rebuild_visible();
            },
            None => {},
        }
    }

    /// Toggles the selected container's expansion; on a scalar row it starts
    /// a value edit instead.
    pub fn toggle_expand(&mut self)
        requires
            old(self).wf(),
        ensures
            final (self).wf(),
            final (self).model == old(self).model,
            final (self).dirty == old(self).dirty,
            (old(self).selection < old(self).visible@.len() && rows_model(
                old(self).visible@,
            )[old(self).selection as int].is_container ==> final (self).expanded.model()
                == crate::laws::toggle(
                old(self).expanded.model(),
                crate::path::spec_dot_path(
                    rows_model(old(self).visible@)[old(self).selection as int].path,
                ),
            )),
            (old(self).selection < old(self).visible@.len() && !rows_model(
                old(self).visible@,
            )[old(self).selection as int].is_container ==> final (self).mode == Mode::EditValue
                && final (self).input.text@ == rows_model(old(self).visible@)[old(
                self,
            ).selection as int].preview),
    {
        let mut dot: Option<String> = None;
        let mut scalar_row = false;
        match self.current_row() {
            Some(row) => {
                if row.is_container {
                    dot = Some(row.path.dot_path());
                } else {
                    scalar_row = true;
                }
            },
            None => {},
        }
        match dot {
            Some(d) => {
                if self.expanded.contains(d.as_str()) {
                    self.expanded.remove(d.as_str());
                } else {
                    self.expanded.insert(d);
                }
                self.rebuild_visible();
            },
            None => {
                if scalar_row {
                    self.start_edit_value();
                }
            },
        }
    }

    /// Starts editing the selected scalar's value: the input buffer opens on
    /// its preview text. A container or missing row is left alone.
    pub fn start_edit_value(&mut self)
        requires
            old(self).wf(),
        ensures
            final (self).wf(),
            *final (self) == (App { mode: final (self).mode, input: final (self).input, ..*old(
                self,
            ) }),
            (old(self).selection < old(self).visible@.len() && !rows_model(
                old(self).visible@,
            )[old(self).selection as int].is_container ==> final (self).mode == Mode::EditValue
                && final (self).input.text@ == rows_model(old(self).visible@)[old(
                self,
            ).selection as int].preview),
            (!(old(self).selection < old(self).visible@.len() && !rows_model(
                old(self).visible@,
            )[old(self).selection as int].is_container) ==> *final (self) == *old(self)),
    {
        let mut preview: Option<String> = None;
        match self.current_row() {
            Some(row) => {
                if !row.is_container {
                    preview = Some(row.display_value_preview.clone());
                }
            },
            None => {},
        }
        match preview {
            Some(p) => {
                self.mode = Mode::EditValue;
                self.input.set(p);
            },
            None => {},
        }
    }

    /// Starts editing a raw line: the input buffer opens on its text.
    pub fn start_raw_edit_line(&mut self)
        requires
            old(self).wf(),
        ensures
            final (self).wf(),
            *final (self) == (App { mode: final (self).mode, input: final (self).input, ..*old(
                self,
            ) }),
            (old(self).raw is Some && old(self).selection < old(self).raw->0@.len() ==> final (
            self).mode == Mode::RawEditLine && final (self).input.text@ == old(
                self,
            ).raw->0.deep_view()[old(self).selection as int]),
    {
        let mut line: Option<String> = None;
        match &self.raw {
            Some(lines) => {
                if self.selection < lines.len() {
                    line = Some(lines[self.selection].clone());
                }
            },
            None => {},
        }
        match line {
            Some(l) => {
                self.mode = Mode::RawEditLine;
                self.input.set(l);
            },
            None => {},
        }
    }

    /// Starts renaming the selected mapping key; sequence elements and the
    /// root get a notice instead.
    pub fn start_rename_key(&mut self, now_ms: u64)
        requires
            old(self).wf(),
        ensures
            final (self).wf(),
            (old(self).selection < old(self).visible@.len() && rows_model(
                old(self).visible@,
            )[old(self).selection as int].path.len() > 0 && rows_model(old(self).visible@)[old(
                self,
            ).selection as int].path.last() is Key ==> final (self).mode == Mode::RenameKey
                && final (self).input.text@ == rows_model(old(self).visible@)[old(
                self,
            ).selection as int].key),
    {
        let mut key: Option<String> = None;
        let mut notice: Option<&str> = None;
        match self.current_row() {
            Some(row) => {
                let d = row.path.depth();
                if d == 0 {
                    notice = Some("Root has no key to rename");
                } else {
                    let is_key = match &row.path.0[d - 1] {
                        crate::path::PathSegment::Key(_) => true,
                        crate::path::PathSegment::Index(_) => false,
                    };
                    if is_key {
                        key = Some(row.display_key.clone());
                    } else {
                        notice = Some("Cannot rename sequence item");
                    }
                }
            },
            None => {},
        }
        match key {
            Some(k) => {
                self.mode = Mode::RenameKey;
                self.input.set(k);
            },
            None => {
                match notice {
                    Some(n) => {
                        self.set_toast(n.to_owned(), now_ms);
                    },
                    None => {},
                }
            },
        }
    }

    /// Starts adding a child: key entry on a mapping, value entry on a
    /// sequence; a scalar reached through a key is first converted to an
    /// empty mapping so a first child can be added.
    pub fn start_add_child(&mut self, now_ms: u64)
        requires
            old(self).wf(),
        ensures
            final (self).wf(),
            (old(self).selection < old(self).visible@.len() && rows_model(
                old(self).visible@,
            )[old(self).selection as int].node_type == crate::tree::NodeType::Mapping ==> final (
            self).mode == Mode::AddKey && final (self).input.text@.len() == 0),
            (old(self).selection < old(self).visible@.len() && rows_model(
                old(self).visible@,
            )[old(self).selection as int].node_type == crate::tree::NodeType::Sequence ==> final (
            self).mode == Mode::AddValue && final (self).input.text@.len() == 0),
    {
        let mut target: Option<(NodePath, crate::tree::NodeType, bool)> = None;
        match self.current_row() {
            Some(row) => {
                let d = row.path.depth();
                let is_key = if d == 0 {
                    false
                } else {
                    match &row.path.0[d - 1] {
                        crate::path::PathSegment::Key(_) => true,
                        crate::path::PathSegment::Index(_) => false,
                    }
                };
                target = Some((row.path.clone(), row.node_type, is_key));
            },
            None => {},
        }
        match target {
            Some((path, node_type, is_key)) => {
                match node_type {
                    crate::tree::NodeType::Mapping => {
                        self.mode = Mode::AddKey;
                        self.input.set(String::new());
                    },
                    crate::tree::NodeType::Sequence => {
                        self.mode = Mode::AddValue;
                        self.input.set(String::new());
                    },
                    _ => {
                        if is_key {
                            match self.model.convert_to_empty_map(&path) {
                                Ok(_) => {
                                    self.dirty = true;
                                    self.rebuild_visible();
                                    self.mode = Mode::AddKey;
                                    self.input.set(String::new());
                                },
                                Err(e) => {
                                    self.set_toast(e.message().to_owned(), now_ms);
                                },
                            }
                        } else {
                            self.set_toast("Cannot add child to scalar".to_owned(), now_ms);
                        }
                    },
                }
            },
            None => {},
        }
    }

    /// Appends an empty mapping to the selected sequence, selects the new
    /// element and starts key entry on it.
    pub fn start_add_map_to_sequence(&mut self, now_ms: u64)
        requires
            old(self).wf(),
        ensures
            final (self).wf(),
            (old(self).selection < old(self).visible@.len() && rows_model(
                old(self).visible@,
            )[old(self).selection as int].node_type == crate::tree::NodeType::Sequence) ==> ({
                let p = rows_model(old(self).visible@)[old(self).selection as int].path;
                let sp = crate::doc::spec_apply(
                    old(self).model.model(),
                    p,
                    crate::doc::OpV::AddSeqEmptyMap,
                );
                &&& (sp matches Ok(pr) ==> final (self).model.model() == pr.0 && final (
                self).dirty && final (self).mode == Mode::AddKey && final (
                self).input.text@.len() == 0 && final (self).expanded.model() == old(
                    self,
                ).expanded.model().insert(crate::path::spec_dot_path(p)))
                &&& (sp is Err ==> final (self).model.model() == old(self).model.model()
                    && final (self).toast is Some)
            }),
            (old(self).selection < old(self).visible@.len() && rows_model(
                old(self).visible@,
            )[old(self).selection as int].node_type != crate::tree::NodeType::Sequence) ==> final (
            self).model == old(self).model && final (self).toast is Some,
    {
        let mut target: Option<(NodePath, crate::tree::NodeType)> = None;
        match self.current_row() {
            Some(row) => {
                target = Some((row.path.clone(), row.node_type));
            },
            None => {},
        }
        match target {
            Some((path, node_type)) => {
                match node_type {
                    crate::tree::NodeType::Sequence => {
                        match self.model.add_sequence_empty_map(&path) {
                            Ok(new_path) => {
                                self.dirty = true;
                                self.expanded.insert(path.dot_path());
                                self.rebuild_visible();
                                self.restore_selection(Some(new_path));
                                self.mode = Mode::AddKey;
                                self.input.set(String::new());
                            },
                            Err(e) => {
                                self.set_toast(e.message().to_owned(), now_ms);
                            },
                        }
                    },
                    _ => {
                        self.set_toast(
                            "Shift+A: only on a sequence (list). Use 'a' to add a value.".to_owned(),
                            now_ms,
                        );
                    },
                }
            },
            None => {},
        }
    }

    /// Asks for confirmation before deleting the selected node.
    pub fn start_delete_node(&mut self)
        ensures
            *final (self) == (App { mode: final (self).mode, ..*old(self) }),
            old(self).selection < old(self).visible@.len() ==> final (self).mode
                == Mode::ConfirmDelete,
            old(self).selection >= old(self).visible@.len() ==> final (self).mode == old(
                self,
            ).mode,
    {
        if self.selection < self.visible.len() {
            self.mode = Mode::ConfirmDelete;
        }
    }

    /// Asks for confirmation before quitting.
    pub fn request_quit(&mut self)
        ensures
            *final (self) == (App { mode: final (self).mode, ..*old(self) }),
            final (self).mode == Mode::ConfirmQuit,
    {
        self.mode = Mode::ConfirmQuit;
    }

    /// Answers a pending confirmation with yes.
    pub fn confirm_yes(&mut self, now_ms: u64) -> (r: Effect)
        requires
            old(self).wf(),
        ensures
            final (self).wf(),
            old(self).mode == Mode::ConfirmQuit <==> r == Effect::Quit,
            old(self).mode == Mode::ConfirmOpenAnother <==> r == Effect::OpenPicker,
            old(self).mode == Mode::ConfirmQuit ==> *final (self) == *old(self),
            old(self).mode == Mode::ConfirmOpenAnother ==> *final (self) == (App {
                mode: final (self).mode,
                ..*old(self)
            }) && final (self).mode == Mode::Normal,
            (old(self).mode == Mode::ConfirmDelete && old(self).selection < old(
                self,
            ).visible@.len()) ==> ({
                let sp = crate::doc::spec_delete(
                    old(self).model.model(),
                    rows_model(old(self).visible@)[old(self).selection as int].path,
                );
                &&& final (self).mode == Mode::Normal
                &&& (sp matches Ok(nd) ==> final (self).model.model() == nd && final (
                self).dirty)
                &&& (sp is Err ==> final (self).model.model() == old(self).model.model()
                    && final (self).toast is Some)
            }),
            old(self).mode == Mode::ConfirmRawDeleteLine ==> final (self).mode == Mode::Normal
                && final (self).model == old(self).model && (match (
                old(self).raw,
                final (self).raw,
            ) {
                (Some(ol), Some(nl)) => old(self).selection < ol@.len() ==> nl.deep_view()
                    == ol.deep_view().remove(old(self).selection as int) && final (self).dirty,
                (None, None) => true,
                _ => false,
            }),
    {
        match self.mode {
            Mode::ConfirmDelete => {
                let path = self.save_selection_path();
                match path {
                    Some(p) => {
                        match self.model.delete_node(&p) {
                            Ok(_) => {
                                self.dirty = true;
                                self.rebuild_visible();
                            },
                            Err(e) => {
                                self.set_toast(e.message().to_owned(), now_ms);
                            },
                        }
                    },
                    None => {},
                }
                self.mode = Mode::Normal;
                Effect::Continue
            },
            Mode::ConfirmQuit => Effect::Quit,
            Mode::ConfirmOpenAnother => {
                self.mode = Mode::Normal;
                Effect::OpenPicker
            },
            Mode::ConfirmRawDeleteLine => {
                self.raw_delete_line(self.selection);
                self.mode = Mode::Normal;
                Effect::Continue
            },
            _ => Effect::Continue,
        }
    }

    /// Answers a pending confirmation with no.
    pub fn confirm_no(&mut self)
        ensures
            *final (self) == (App { mode: final (self).mode, ..*old(self) }),
            final (self).mode == Mode::Normal,
    {
        self.mode = Mode::Normal;
    }

    /// Opens the search input.
    pub fn start_search(&mut self)
        requires
            old(self).input.wf(),
        ensures
            final (self).wf() == old(self).wf(),
            final (self).mode == Mode::SearchInput,
            final (self).input.text@.len() == 0,
    {
        self.mode = Mode::SearchInput;
        self.input.set(String::new());
    }

    /// Jumps the selection to the next match, cycling.
    pub fn search_next(&mut self)
        ensures
            *final (self) == (App { selection: final (self).selection, ..*old(self) }),
            final (self).selection as int == (match crate::search::spec_next_match(
                old(self).matches@,
                old(self).selection,
            ) {
                Some(next) => next as int,
                None => old(self).selection as int,
            }),
    {
        match crate::search::next_match(&self.matches, self.selection) {
            Some(next) => {
                self.selection = next;
            },
            None => {},
        }
    }

    /// Jumps the selection to the previous match, cycling.
    pub fn search_prev(&mut self)
        ensures
            *final (self) == (App { selection: final (self).selection, ..*old(self) }),
            final (self).selection as int == (match crate::search::spec_prev_match(
                old(self).matches@,
                old(self).selection,
            ) {
                Some(prev) => prev as int,
                None => old(self).selection as int,
            }),
    {
        match crate::search::prev_match(&self.matches, self.selection) {
            Some(prev) => {
                self.selection = prev;
            },
            None => {},
        }
    }

    /// Cancels the active mode: clears the input buffer and any pending key;
    /// cancelling the search also clears the query and recomputes the rows.
    pub fn cancel_mode(&mut self)
        requires
            old(self).wf(),
        ensures
            final (self).wf(),
            final (self).mode == Mode::Normal,
            final (self).model == old(self).model,
            final (self).raw == old(self).raw,
            final (self).dirty == old(self).dirty,
            final (self).search_query is None || old(self).mode != Mode::SearchInput,
            old(self).mode == Mode::SearchInput ==> final (self).search_query is None && final (
            self).matches@.len() == 0,
            final (self).input.text@.len() == 0,
            final (self).pending_key is None,
    {
        if matches!(self.mode, Mode::SearchInput) {
            self.search_query = None;
            self.matches = Vec::new();
            self.rebuild_visible();
        }
        self.mode = Mode::Normal;
        self.input.set(String::new());
        self.pending_key = None;
    }
}

/// The first line of a text, or empty when the text has none.
pub open spec fn first_line_of(s: Seq<char>) -> Seq<char> {
    if spec_lines(s).len() > 0 {
        spec_lines(s)[0]
    } else {
        Seq::empty()
    }
}

/// The ordered positions of the rows matching a query.
fn compute_matches(rows: &Vec<VisibleRow>, q: &str) -> (r: Vec<usize>)
    ensures
        crate::search::matches_ok(r@, rows_model(rows@), q@),
{
    let mut r: Vec<usize> = Vec::new();
    let mut i: usize = 0;
    while i < rows.len()
        invariant
            i <= rows@.len(),
            forall|k: int|
                0 <= k < r@.len() ==> (r@[k] as int) < i
                    && crate::search::spec_matches_row(rows_model(rows@)[r@[k] as int], q@),
            forall|j: int|
                0 <= j < i && crate::search::spec_matches_row(rows_model(rows@)[j], q@)
                    ==> exists|k: int| 0 <= k < r@.len() && r@[k] as int == j,
            forall|k1: int, k2: int| 0 <= k1 < k2 < r@.len() ==> r@[k1] < r@[k2],
        decreases rows@.len() - i,
    {
        proof {
            assert(rows_model(rows@)[i as int] == rows@[i as int].model());
        }
        if crate::search::matches_row(&rows[i], q) {
            let ghost before = r@;
            r.push(i);
            proof {
                assert(r@[r@.len() - 1] as int == i as int);
                assert(forall|k: int| 0 <= k < before.len() ==> r@[k] == before[k]);
            }
        }
        i = i + 1;
    }
    r
}

impl App {
    /// Commits the input buffer according to the active mode: a value edit,
    /// a key rename, the two-step add flow, the search query, or a raw line
    /// replacement. Validation failures surface as transient notices and
    /// never corrupt the document.
    pub fn commit_input(&mut self, now_ms: u64)
        requires
            old(self).wf(),
        ensures
            final (self).wf(),
            (match old(self).mode {
                Mode::Normal | Mode::ConfirmDelete | Mode::ConfirmQuit | Mode::ConfirmOpenAnother
                    | Mode::ConfirmRawDeleteLine => *final (self) == *old(self),
                _ => true,
            }),
            old(self).mode == Mode::AddKey ==> final (self).model == old(self).model && final (
            self).raw == old(self).raw && (if crate::strutil::spec_trim(
                old(self).input.text@,
            ).len() == 0 {
                final (self).mode == Mode::AddKey && final (self).toast is Some && final (
                self).pending_key == old(self).pending_key
            } else {
                final (self).mode == Mode::AddValue && (final (self).pending_key matches Some(k)
                    && k@ == crate::strutil::spec_trim(old(self).input.text@)) && final (
                self).input.text@.len() == 0
            }),
            (old(self).mode == Mode::RenameKey && old(self).selection < old(
                self,
            ).visible@.len()) ==> ({
                let p = rows_model(old(self).visible@)[old(self).selection as int].path;
                let nk = crate::strutil::spec_trim(old(self).input.text@);
                &&& (nk.len() == 0 ==> final (self).model == old(self).model && final (self).mode
                    == Mode::RenameKey && final (self).toast is Some)
                &&& (nk.len() > 0 ==> ({
                    let sp = crate::doc::spec_rename(old(self).model.model(), p, nk);
                    &&& (sp matches Ok(nd) ==> final (self).model.model() == nd && final (
                    self).dirty && final (self).mode == Mode::Normal)
                    &&& (sp is Err ==> final (self).model.model() == old(self).model.model()
                        && final (self).toast is Some && final (self).mode == Mode::RenameKey)
                }))
            }),
            (old(self).mode == Mode::AddValue && old(self).selection < old(
                self,
            ).visible@.len()) ==> ({
                let p = rows_model(old(self).visible@)[old(self).selection as int].path;
                let nt = rows_model(old(self).visible@)[old(self).selection as int].node_type;
                let v = crate::doc::scal_doc(
                    crate::scalar::spec_parse_scalar(old(self).input.text@),
                );
                &&& ((nt == crate::tree::NodeType::Mapping && old(self).pending_key is Some)
                    ==> ({
                    let sp = crate::doc::spec_apply(
                        old(self).model.model(),
                        p,
                        crate::doc::OpV::AddMapChild(old(self).pending_key->0@, v),
                    );
                    &&& final (self).pending_key is None
                    &&& (sp matches Ok(pr) ==> final (self).model.model() == pr.0 && final (
                    self).dirty && final (self).mode == Mode::Normal)
                    &&& (sp is Err ==> final (self).model.model() == old(self).model.model()
                        && final (self).toast is Some)
                }))
                &&& (nt == crate::tree::NodeType::Sequence ==> ({
                    let sp2 = crate::doc::spec_apply(
                        old(self).model.model(),
                        p,
                        crate::doc::OpV::AddSeqValue(v),
                    );
                    &&& (sp2 matches Ok(pr2) ==> final (self).model.model() == pr2.0 && final (
                    self).dirty && final (self).mode == Mode::Normal)
                    &&& (sp2 is Err ==> final (self).model.model() == old(self).model.model()
                        && final (self).toast is Some)
                }))
                &&& ((nt == crate::tree::NodeType::Mapping && old(self).pending_key is None)
                    ==> final (self).mode == Mode::Normal && final (self).model == old(
                    self,
                ).model)
                &&& ((nt != crate::tree::NodeType::Mapping && nt
                    != crate::tree::NodeType::Sequence) ==> final (self).mode == Mode::Normal
                    && final (self).model == old(self).model)
            }),
            (old(self).mode == Mode::EditValue && old(self).selection < old(
                self,
            ).visible@.len()) ==> ({
                let p = rows_model(old(self).visible@)[old(self).selection as int].path;
                let sp = crate::doc::spec_apply(
                    old(self).model.model(),
                    p,
                    crate::doc::OpV::SetValue(
                        crate::doc::scal_doc(
                            crate::scalar::spec_parse_scalar(old(self).input.text@),
                        ),
                    ),
                );
                &&& final (self).mode == Mode::Normal
                &&& (sp matches Ok(pr) ==> final (self).model.model() == pr.0 && final (
                self).dirty)
                &&& (sp is Err ==> final (self).model.model() == old(self).model.model())
            }),
            old(self).mode == Mode::SearchInput ==> final (self).mode == Mode::Normal && final (
            self).model == old(self).model && qv(final (self).search_query) == (
            if crate::strutil::spec_trim(old(self).input.text@).len() == 0 {
                Option::<Seq<char>>::None
            } else {
                Some(crate::strutil::spec_trim(old(self).input.text@))
            }) && (match qv(final (self).search_query) {
                Some(q) => crate::search::matches_ok(
                    final (self).matches@,
                    rows_model(final (self).visible@),
                    q,
                ) && (final (self).matches@.len() > 0 ==> final (self).selection == final (
                self).matches@[0]) && (final (self).matches@.len() == 0 ==> final (
                self).toast is Some),
                None => final (self).matches@.len() == 0,
            }),
            old(self).mode == Mode::RawEditLine ==> final (self).mode == Mode::Normal && final (
            self).dirty && final (self).model == old(self).model && (match (
                old(self).raw,
                final (self).raw,
            ) {
                (Some(ol), Some(nl)) => old(self).selection < ol@.len() ==> nl.deep_view()
                    == ol.deep_view().update(
                    old(self).selection as int,
                    first_line_of(old(self).input.text@),
                ),
                (None, None) => true,
                _ => false,
            }),
    {
        match self.mode {
            Mode::EditValue => {
                let path = self.save_selection_path();
                match path {
                    Some(p) => {
                        let parsed = crate::scalar::parse_scalar_input(self.input.text.as_str());
                        match self.model.edit_value(&p, parsed) {
                            Ok(_) => {
                                self.dirty = true;
                                self.mode = Mode::Normal;
                                self.rebuild_visible();
                            },
                            Err(e) => {
                                self.set_toast(e.message().to_owned(), now_ms);
                                self.mode = Mode::Normal;
                                self.rebuild_visible();
                            },
                        }
                    },
                    None => {
                        self.mode = Mode::Normal;
                        self.rebuild_visible();
                    },
                }
            },
            Mode::RenameKey => {
                let path = self.save_selection_path();
                match path {
                    Some(p) => {
                        let cs = crate::strutil::str_chars(self.input.text.as_str());
                        let t = crate::strutil::trim_chars(&cs);
                        if t.len() == 0 {
                            self.set_toast("Key cannot be empty".to_owned(), now_ms);
                        } else {
                            let key = crate::strutil::chars_string(&t);
                            match self.model.rename_key(&p, key.as_str()) {
                                Ok(_) => {
                                    self.dirty = true;
                                    self.mode = Mode::Normal;
                                    self.rebuild_visible();
                                },
                                Err(e) => {
                                    self.set_toast(e.message().to_owned(), now_ms);
                                },
                            }
                        }
                    },
                    None => {
                        self.mode = Mode::Normal;
                    },
                }
            },
            Mode::AddKey => {
                let cs = crate::strutil::str_chars(self.input.text.as_str());
                let t = crate::strutil::trim_chars(&cs);
                if t.len() == 0 {
                    self.set_toast("Key cannot be empty".to_owned(), now_ms);
                } else {
                    self.pending_key = Some(crate::strutil::chars_string(&t));
                    self.mode = Mode::AddValue;
                    self.input.set(String::new());
                }
            },
            Mode::AddValue => {
                let mut target: Option<(NodePath, crate::tree::NodeType)> = None;
                match self.current_row() {
                    Some(row) => {
                        target = Some((row.path.clone(), row.node_type));
                    },
                    None => {},
                }
                match target {
                    Some((path, node_type)) => {
                        let parsed = crate::scalar::parse_scalar_input(self.input.text.as_str());
                        match node_type {
                            crate::tree::NodeType::Mapping => {
                                let mut pending: Option<String> = None;
                                core::mem::swap(&mut self.pending_key, &mut pending);
                                match pending {
                                    Some(key) => {
                                        match self.model.add_mapping_child(
                                            &path,
                                            key.as_str(),
                                            parsed,
                                        ) {
                                            Ok(_) => {
                                                self.dirty = true;
                                                self.mode = Mode::Normal;
                                                self.rebuild_visible();
                                            },
                                            Err(e) => {
                                                self.set_toast(e.message().to_owned(), now_ms);
                                            },
                                        }
                                    },
                                    None => {
                                        self.mode = Mode::Normal;
                                    },
                                }
                            },
                            crate::tree::NodeType::Sequence => {
                                match self.model.add_sequence_value(&path, parsed) {
                                    Ok(_) => {
                                        self.dirty = true;
                                        self.mode = Mode::Normal;
                                        self.rebuild_visible();
                                    },
                                    Err(e) => {
                                        self.set_toast(e.message().to_owned(), now_ms);
                                    },
                                }
                            },
                            _ => {
                                self.mode = Mode::Normal;
                            },
                        }
                    },
                    None => {
                        self.mode = Mode::Normal;
                    },
                }
            },
            Mode::SearchInput => {
                let cs = crate::strutil::str_chars(self.input.text.as_str());
                let t = crate::strutil::trim_chars(&cs);
                let empty = t.len() == 0;
                self.search_query = if empty {
                    None
                } else {
                    Some(crate::strutil::chars_string(&t))
                };
                self.mode = Mode::Normal;
                self.rebuild_visible();
                if empty {
                    self.matches = Vec::new();
                }
                if !empty && self.matches.len() == 0 {
                    self.set_toast("No matches found".to_owned(), now_ms);
                } else if self.matches.len() > 0 {
                    self.selection = self.matches[0];
                }
            },
            Mode::RawEditLine => {
                let text = self.input.text.clone();
                let sel = self.selection;
                self.raw_replace_line(sel, text.as_str());
                self.mode = Mode::Normal;
                self.dirty = true;
            },
            _ => {},
        }
    }

    /// Applies one abstract action. The returned effect is everything the
    /// session cannot do itself: quitting, file writes, the clipboard, and
    /// the file picker.
    pub fn apply_action(&mut self, action: InputAction, area_height: usize, now_ms: u64) -> (r:
        Effect)
        requires
            old(self).wf(),
        ensures
            final (self).wf(),
            action == InputAction::Quit ==> r == Effect::Continue && final (self).mode
                == Mode::ConfirmQuit,
            action == InputAction::Save ==> r == (if old(self).in_raw_mode() {
                Effect::SaveRaw
            } else {
                Effect::SaveTree
            }),
            action == InputAction::CopyPath ==> (if old(self).selection < old(
                self,
            ).visible@.len() {
                r matches Effect::CopyText(t) && t@ == crate::path::spec_dot_path(
                    rows_model(old(self).visible@)[old(self).selection as int].path,
                )
            } else {
                r == Effect::Continue
            }),
            action == InputAction::OpenAnother ==> (if old(self).dirty {
                r == Effect::Continue && final (self).mode == Mode::ConfirmOpenAnother
            } else {
                r == Effect::OpenPicker
            }),
            action == InputAction::ConfirmNo ==> final (self).mode == Mode::Normal,
            action == InputAction::ConfirmYes ==> (old(self).mode == Mode::ConfirmQuit <==> r
                == Effect::Quit),
            r == Effect::Quit ==> action == InputAction::ConfirmYes && old(self).mode
                == Mode::ConfirmQuit,
            action == InputAction::Cancel ==> final (self).mode == Mode::Normal && final (
            self).pending_key is None,
            action == InputAction::JumpTop ==> final (self).selection == 0,
            (action == InputAction::MoveUp || action == InputAction::MoveDown || action
                == InputAction::JumpTop || action == InputAction::JumpBottom || action
                == InputAction::PageUp || action == InputAction::PageDown || action
                == InputAction::JumpLeft) ==> final (self).model == old(self).model && final (
            self).dirty == old(self).dirty && final (self).raw == old(self).raw && final (
            self).mode == old(self).mode,
            viewport_follows(
                final (self).spec_visible_len(),
                final (self).selection as int,
                final (self).scroll as int,
                area_height as int,
            ),
    {
        let in_raw_mode = self.raw.is_some();
        let mut effect = Effect::Continue;
        match action {
            InputAction::Quit => {
                self.request_quit();
            },
            InputAction::Save => {
                effect = if in_raw_mode {
                    Effect::SaveRaw
                } else {
                    Effect::SaveTree
                };
            },
            InputAction::MoveUp => {
                self.move_selection_up(area_height);
            },
            InputAction::MoveDown => {
                self.move_selection_down(area_height);
            },
            InputAction::JumpTop => {
                self.jump_top();
            },
            InputAction::JumpBottom => {
                self.jump_bottom();
            },
            InputAction::PageUp => {
                self.page_scroll(area_height, false);
            },
            InputAction::PageDown => {
                self.page_scroll(area_height, true);
            },
            InputAction::JumpLeft => {
                self.scroll = 0;
            },
            InputAction::Collapse => {
                self.collapse_selected();
            },
            InputAction::Expand => {
                self.expand_selected();
            },
            InputAction::ToggleExpand => {
                self.toggle_expand();
            },
            InputAction::EditValue => {
                if in_raw_mode {
                    self.start_raw_edit_line();
                } else {
                    self.start_edit_value();
                }
            },
            InputAction::RenameKey => {
                if in_raw_mode {
                    self.set_toast(
                        "Key rename: fix parse errors or save to use tree view".to_owned(),
                        now_ms,
                    );
                } else {
                    self.start_rename_key(now_ms);
                }
            },
            InputAction::AddChild => {
                if in_raw_mode {
                    self.set_toast(
                        "Add child: fix parse errors or save to use tree view".to_owned(),
                        now_ms,
                    );
                } else {
                    self.start_add_child(now_ms);
                }
            },
            InputAction::AddMapToSequence => {
                if in_raw_mode {
                    self.set_toast(
                        "Add object: fix parse errors or save to use tree view".to_owned(),
                        now_ms,
                    );
                } else {
                    self.start_add_map_to_sequence(now_ms);
                }
            },
            InputAction::DeleteNode => {
                if in_raw_mode {
                    self.mode = Mode::ConfirmRawDeleteLine;
                } else {
                    self.start_delete_node();
                }
            },
            InputAction::DeleteLine => {
                if in_raw_mode {
                    self.mode = Mode::ConfirmRawDeleteLine;
                }
            },
            InputAction::CopyPath => {
                match self.current_row() {
                    Some(row) => {
                        effect = Effect::CopyText(row.path.dot_path());
                    },
                    None => {},
                }
            },
            InputAction::ConfirmYes => {
                effect = self.confirm_yes(now_ms);
            },
            InputAction::ConfirmNo => {
                self.confirm_no();
            },
            InputAction::OpenAnother => {
                if self.dirty {
                    self.mode = Mode::ConfirmOpenAnother;
                } else {
                    effect = Effect::OpenPicker;
                }
            },
            InputAction::StartSearch => {
                self.start_search();
            },
            InputAction::SearchNext => {
                self.search_next();
            },
            InputAction::SearchPrev => {
                self.search_prev();
            },
            InputAction::Cancel => {
                self.cancel_mode();
            },
            InputAction::InputChar(ch) => {
                self.input.insert_char(ch);
            },
            InputAction::InputBackspace => {
                self.input.backspace();
            },
            InputAction::InputDelete => {
                self.input.delete();
            },
            InputAction::InputLeft => {
                self.input.move_left();
            },
            InputAction::InputRight => {
                self.input.move_right();
            },
            InputAction::InputHome => {
                self.input.move_home();
            },
            InputAction::InputEnd => {
                self.input.move_end();
            },
            InputAction::InputCommit => {
                self.commit_input(now_ms);
            },
        }
        self.ensure_visible(area_height);
        effect
    }

    /// Handles one key press in the editor view: the state machine turns it
    /// into an action, which is applied.
    pub fn handle_key(&mut self, key: crate::input::KeyPress, area_height: usize, now_ms: u64) -> (
        r: Effect)
        requires
            old(self).wf(),
        ensures
            final (self).wf(),
            crate::input::spec_handle_key(old(self).mode, key, old(self).vim.pending()).0 is None
                ==> r == Effect::Continue && final (self).vim.pending()
                == crate::input::spec_handle_key(old(self).mode, key, old(self).vim.pending()).1,
            ({
                let act = crate::input::spec_handle_key(
                    old(self).mode,
                    key,
                    old(self).vim.pending(),
                ).0;
                &&& (act == Some(InputAction::Quit) ==> r == Effect::Continue && final (self).mode
                    == Mode::ConfirmQuit)
                &&& (act == Some(InputAction::Save) ==> r == (if old(self).in_raw_mode() {
                    Effect::SaveRaw
                } else {
                    Effect::SaveTree
                }))
                &&& (r == Effect::Quit ==> act == Some(InputAction::ConfirmYes) && old(self).mode
                    == Mode::ConfirmQuit)
                &&& ((act == Some(InputAction::MoveUp) || act == Some(InputAction::MoveDown)
                    || act == Some(InputAction::JumpTop) || act == Some(InputAction::JumpBottom)
                    || act == Some(InputAction::PageUp) || act == Some(InputAction::PageDown)
                    || act == Some(InputAction::JumpLeft)) ==> final (self).model == old(
                    self,
                ).model && final (self).dirty == old(self).dirty)
            }),
    {
        let mode = self.mode;
        let mut vim = VimInputHandler::new();
        core::mem::swap(&mut self.vim, &mut vim);
        let action = vim.handle_key(crate::input::InputContext { mode: &mode, key });
        core::mem::swap(&mut self.vim, &mut vim);
        match action {
            Some(a) => self.apply_action(a, area_height, now_ms),
            None => Effect::Continue,
        }
    }

    /// A pointer click on a row: selects it, and toggles it when it is a
    /// container in tree mode.
    pub fn click_row(&mut self, row_index: usize)
        requires
            old(self).wf(),
        ensures
            final (self).wf(),
            final (self).model == old(self).model,
            ({
                let clicked_container = !old(self).in_raw_mode() && row_index < old(
                    self,
                ).visible@.len() && rows_model(old(self).visible@)[row_index as int].is_container;
                &&& (clicked_container ==> final (self).expanded.model() == crate::laws::toggle(
                    old(self).expanded.model(),
                    crate::path::spec_dot_path(
                        rows_model(old(self).visible@)[row_index as int].path,
                    ),
                ))
                &&& (!clicked_container ==> *final (self) == (App {
                    selection: final (self).selection,
                    ..*old(self)
                }) && final (self).selection == row_index)
            }),
    {
        self.selection = row_index;
        if self.raw.is_none() {
            self.toggle_expand_no_edit();
        }
    }

    fn toggle_expand_no_edit(&mut self)
        requires
            old(self).wf(),
        ensures
            final (self).wf(),
            final (self).model == old(self).model,
            (old(self).selection < old(self).visible@.len() && rows_model(
                old(self).visible@,
            )[old(self).selection as int].is_container ==> final (self).expanded.model()
                == crate::laws::toggle(
                old(self).expanded.model(),
                crate::path::spec_dot_path(
                    rows_model(old(self).visible@)[old(self).selection as int].path,
                ),
            )),
            (!(old(self).selection < old(self).visible@.len() && rows_model(
                old(self).visible@,
            )[old(self).selection as int].is_container) ==> *final (self) == *old(self)),
    {
        let mut dot: Option<String> = None;
        match self.current_row() {
            Some(row) => {
                if row.is_container {
                    dot = Some(row.path.dot_path());
                }
            },
            None => {},
        }
        match dot {
            Some(d) => {
                if self.expanded.contains(d.as_str()) {
                    self.expanded.remove(d.as_str());
                } else {
                    self.expanded.insert(d);
                }
                self.rebuild_visible();
            },
            None => {},
        }
    }

    /// A pointer wheel step: moves the viewport one row and pulls the
    /// selection along.
    pub fn scroll_rows(&mut self, down: bool, area_height: usize)
        requires
            old(self).wf(),
        ensures
            *final (self) == (App {
                selection: final (self).selection,
                scroll: final (self).scroll,
                ..*old(self)
            }),
            final (self).wf(),
            ({
                let len = old(self).spec_visible_len();
                let maxs = if len > area_height {
                    len - area_height
                } else {
                    0int
                };
                let stepped = if down {
                    if old(self).scroll < maxs {
                        old(self).scroll + 1
                    } else {
                        maxs
                    }
                } else {
                    let back = if old(self).scroll > 0 {
                        old(self).scroll - 1
                    } else {
                        0int
                    };
                    if back > maxs {
                        maxs
                    } else {
                        back
                    }
                };
                final (self).scroll == stepped && final (self).selection == spec_clamp_selection(
                    len,
                    old(self).selection as int,
                    stepped,
                    area_height as int,
                )
            }),
    {
        let len = self.visible_len();
        let max_scroll = if len > area_height {
            len - area_height
        } else {
            0
        };
        if down {
            if self.scroll < max_scroll {
                self.scroll = self.scroll + 1;
            } else {
                self.scroll = max_scroll;
            }
        } else {
            if self.scroll > 0 {
                self.scroll = self.scroll - 1;
            }
            if self.scroll > max_scroll {
                self.scroll = max_scroll;
            }
        }
        self.clamp_selection(area_height);
    }

    /// Whether the backing file is due for an external-change poll: never
    /// while there are unsaved edits, and at most once per interval.
    pub fn reload_check_due(&self, now_ms: u64) -> (r: bool)
        ensures
            r == (self.model.spec_path().len() > 0 && !self.dirty && (match self
                .last_file_check_ms {
                Some(l) => now_ms >= l + 1500,
                None => true,
            })),
    {
        let path_empty = self.model.file_path().is_empty();
        if path_empty {
            return false;
        }
        if self.dirty {
            return false;
        }
        match self.last_file_check_ms {
            Some(l) => l <= u64::MAX - 1500 && now_ms >= l + 1500,
            None => true,
        }
    }

    /// Notes that the backing file was polled now.
    pub fn note_file_check(&mut self, now_ms: u64)
        ensures
            *final (self) == (App { last_file_check_ms: final (self).last_file_check_ms, ..*old(
                self,
            ) }),
            final (self).last_file_check_ms == Some(now_ms),
    {
        self.last_file_check_ms = Some(now_ms);
    }

    /// Whether a fresh modification stamp means the file changed under us.
    pub fn should_reload(&self, mtime_ms: u64) -> (r: bool)
        ensures
            r == (match self.last_modified_ms {
                Some(l) => mtime_ms > l,
                None => true,
            }),
    {
        match self.last_modified_ms {
            Some(l) => mtime_ms > l,
            None => true,
        }
    }

    /// Replaces the document with freshly read text after an external
    /// change: the expand-state resets to root-only and the selection is
    /// clamped into the new row list.
    pub fn apply_reload(&mut self, text: &str, mtime_ms: u64, now_ms: u64)
        requires
            old(self).input.wf(),
        ensures
            final (self).wf(),
            final (self).last_modified_ms == Some(mtime_ms),
            final (self).in_raw_mode() == (crate::doc::parse_outcome(text@) is None),
            crate::doc::parse_outcome(text@) is Some ==> final (self).model.model()
                == crate::doc::parse_outcome(text@)->0,
    {
        self.last_modified_ms = Some(mtime_ms);
        let path = self.model.file_path().to_owned();
        let (model, parse_error, raw_content) = YamlModel::from_text(path, text);
        self.model = model;
        self.parse_error = parse_error;
        self.raw = match raw_content {
            Some(rc) => Some(split_lines(rc.as_str())),
            None => None,
        };
        let mut expanded = StrSet::new();
        expanded.insert(String::new());
        self.expanded = expanded;
        self.search_query = None;
        self.matches = Vec::new();
        let tree = self.model.build_tree();
        let rows = flatten_visible(&tree, &self.expanded, None);
        self.tree_root = tree;
        self.visible = rows;
        match &self.raw {
            Some(lines) => {
                let n = lines.len();
                if n > 0 && self.selection >= n {
                    self.selection = n - 1;
                }
            },
            None => {
                let n = self.visible.len();
                if self.selection >= n {
                    self.selection = if n > 0 {
                        n - 1
                    } else {
                        0
                    };
                }
            },
        }
        self.set_toast("File changed on disk, reloaded".to_owned(), now_ms);
    }

    /// Notes a successful save of the document.
    pub fn note_saved(&mut self, now_ms: u64)
        ensures
            final (self).wf() == old(self).wf(),
            !final (self).dirty,
            final (self).toast is Some,
    {
        self.dirty = false;
        self.set_toast("Saved".to_owned(), now_ms);
    }

    /// Reparses the raw fallback text after it was written out: on success
    /// the session returns to tree mode with the expand-state reset to
    /// root-only; on failure it stays in raw mode with the new message.
    pub fn reparse_raw(&mut self, now_ms: u64)
        requires
            old(self).input.wf(),
            old(self).expanded.wf(),
        ensures
            final (self).wf() || !old(self).in_raw_mode(),
            old(self).in_raw_mode() ==> !final (self).dirty && final (self).wf(),
            (old(self).raw is Some && crate::doc::parse_outcome(
                crate::strutil::spec_join(old(self).raw->0.deep_view()),
            ) is Some) ==> !final (self).in_raw_mode() && final (self).model.model()
                == crate::doc::parse_outcome(
                crate::strutil::spec_join(old(self).raw->0.deep_view()),
            )->0 && final (self).selection == 0 && final (self).scroll == 0 && qv(
                final (self).search_query,
            ) is None,
            (old(self).raw is Some && crate::doc::parse_outcome(
                crate::strutil::spec_join(old(self).raw->0.deep_view()),
            ) is None) ==> final (self).in_raw_mode(),
    {
        let text = match self.raw_text() {
            Some(t) => t,
            None => {
                return ;
            },
        };
        let path = self.model.file_path().to_owned();
        let (model, parse_error, raw_content) = YamlModel::from_text(path, text.as_str());
        self.model = model;
        let ok = parse_error.is_none();
        self.parse_error = parse_error;
        self.raw = match raw_content {
            Some(rc) => Some(split_lines(rc.as_str())),
            None => None,
        };
        self.dirty = false;
        if ok {
            let mut expanded = StrSet::new();
            expanded.insert(String::new());
            self.expanded = expanded;
            self.search_query = None;
            self.matches = Vec::new();
            let tree = self.model.build_tree();
            let rows = flatten_visible(&tree, &self.expanded, None);
            self.tree_root = tree;
            self.visible = rows;
            self.selection = 0;
            self.scroll = 0;
            self.set_toast("Saved and parsed successfully".to_owned(), now_ms);
        } else {
            let tree = self.model.build_tree();
            let rows = flatten_visible(
                &tree,
                &self.expanded,
                match &self.search_query {
                    Some(q) => Some(q.as_str()),
                    None => None,
                },
            );
            self.tree_root = tree;
            self.visible = rows;
            self.set_toast("Saved; parse still has errors".to_owned(), now_ms);
        }
    }

    /// The status line's fields: the selected row's dot path, depth, kind
    /// label and preview, or the raw line's number and prefix in fallback
    /// mode.
    pub fn status_fields(&self) -> (r: (String, usize, String, String))
        ensures
            (!self.in_raw_mode() && self.selection < self.visible@.len()) ==> ({
                let row = rows_model(self.visible@)[self.selection as int];
                &&& r.0@ == crate::path::spec_dot_path(row.path)
                &&& r.1 == row.path.len()
                &&& r.2@ == row.node_type.spec_label()
                &&& r.3@ == row.preview
            }),
            (!self.in_raw_mode() && self.selection >= self.visible@.len()) ==> r.0@.len() == 0
                && r.1 == 0 && r.2@.len() == 0 && r.3@.len() == 0,
            (self.raw matches Some(lines) && self.selection < lines@.len()) ==> r.1
                == self.selection && r.2@ == "raw"@,
    {
        match &self.raw {
            Some(lines) => {
                if self.selection < lines.len() {
                    let mut label = String::new();
                    crate::strutil::push_char(&mut label, 'L');
                    crate::strutil::push_char(&mut label, 'i');
                    crate::strutil::push_char(&mut label, 'n');
                    crate::strutil::push_char(&mut label, 'e');
                    crate::strutil::push_char(&mut label, ' ');
                    let no = if self.selection <= usize::MAX - 1 {
                        self.selection + 1
                    } else {
                        usize::MAX
                    };
                    let digits = crate::strutil::usize_dec_chars(no);
                    crate::strutil::append_chars(&mut label, &digits);
                    let cs = crate::strutil::str_chars(lines[self.selection].as_str());
                    let mut prefix: Vec<char> = Vec::new();
                    let mut i: usize = 0;
                    while i < cs.len() && i < 40
                        invariant
                            i <= cs@.len(),
                            i <= 40,
                            prefix@ == cs@.take(i as int),
                        decreases cs@.len() - i,
                    {
                        prefix.push(cs[i]);
                        proof {
                            assert(prefix@ =~= cs@.take(i + 1 as int));
                        }
                        i = i + 1;
                    }
                    (label, self.selection, "raw".to_owned(), crate::strutil::chars_string(
                        &prefix,
                    ))
                } else {
                    (String::new(), 0, String::new(), String::new())
                }
            },
            None => {
                match self.current_row() {
                    Some(row) => {
                        let dot = row.path.dot_path();
                        let depth = row.path.depth();
                        let label = row.node_type.label().to_owned();
                        let preview = row.display_value_preview.clone();
                        (dot, depth, label, preview)
                    },
                    None => (String::new(), 0, String::new(), String::new()),
                }
            },
        }
    }
}

} // verus!
