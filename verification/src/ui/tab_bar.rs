//! The tab bar: one label per open buffer, left to right, each followed by
//! a separator, cut at the right edge.
use vstd::prelude::*;
use vstd::string::StringExecFns;

verus! {

/// One open buffer as the tab bar shows it.
pub struct TabInfo {
    pub name: String,
    pub modified: bool,
    /// Whether it is the buffer being edited.
    pub current: bool,
}

/// How a cell of the tab bar is drawn.
#[derive(Debug, Clone, Copy, PartialEq, Eq, Structural)]
pub enum TabLook {
    Current,
    Other,
    Separator,
}

pub struct TabBar<'a> {
    pub tabs: &'a [TabInfo],
}

/// The label of a tab: its name, ` +` when modified, a space on each side.
pub open spec fn tab_label(t: TabInfo) -> Seq<char> {
    " "@ + t.name@ + (if t.modified {
        " +"@
    } else {
        Seq::empty()
    }) + " "@
}

/// The cells of a tab: its label, then a separator.
pub open spec fn tab_cells(t: TabInfo) -> Seq<(char, TabLook)> {
    let look = if t.current {
        TabLook::Current
    } else {
        TabLook::Other
    };
    tab_label(t).map_values(|c: char| (c, look)) + seq![('│', TabLook::Separator)]
}

/// The cells of all tabs, in order.
pub open spec fn all_cells(tabs: Seq<TabInfo>) -> Seq<(char, TabLook)>
    decreases tabs.len(),
{
    if tabs.len() == 0 {
        Seq::empty()
    } else {
        all_cells(tabs.drop_last()) + tab_cells(tabs.last())
    }
}

/// The first `n` items of `s` (all of it when it is shorter).
pub open spec fn prefix<A>(s: Seq<A>, n: int) -> Seq<A> {
    if s.len() <= n {
        s
    } else {
        s.take(n)
    }
}

impl<'a> TabBar<'a> {
    pub fn new(tabs: &'a [TabInfo]) -> (b: Self)
        ensures
            b.tabs == tabs,
    {
        Self { tabs }
    }

    /// The cells of the bar from its left edge, `width` at most; the rest of
    /// the bar is blank.
    pub fn cells(&self, width: u16) -> (r: Vec<(char, TabLook)>)
        ensures
            r@ == prefix(all_cells(self.tabs@), width as int),
    {
        let mut out: Vec<(char, TabLook)> = Vec::new();
        let w = width as usize;
        let mut t = 0usize;
        proof {
            assert(self.tabs@.take(0) =~= Seq::<TabInfo>::empty());
        }
        while t < self.tabs.len() && out.len() < w
            invariant
                t <= self.tabs@.len(),
                w == width,
                out@ == prefix(all_cells(self.tabs@.take(t as int)), w as int),
            decreases self.tabs@.len() - t,
        {
            let tab = &self.tabs[t];
            let look = if tab.current {
                TabLook::Current
            } else {
                TabLook::Other
            };
            let mut label = String::from_str(" ");
            label.append(tab.name.as_str());
            if tab.modified {
                label.append(" +");
            }
            label.append(" ");
            proof {
                reveal_strlit(" ");
                reveal_strlit(" +");
                assert(label@ =~= tab_label(*tab));
            }
            let ghost base = out@;
            let ghost cells = tab_cells(*tab);
            let n = label.as_str().unicode_len();
            let mut j = 0usize;
            proof {
                assert(cells.len() == n + 1);
                assert(base + cells.take(0) =~= base);
            }
            // Here `out` holds all the cells of the earlier tabs.
            assert(base == all_cells(self.tabs@.take(t as int)));
            while j < n && out.len() < w
                invariant
                    j <= n,
                    n == label@.len(),
                    label@ == tab_label(*tab),
                    cells == tab_cells(*tab),
                    cells.len() == n + 1,
                    w == width,
                    look == (if tab.current { TabLook::Current } else { TabLook::Other }),
                    out@ == base + cells.take(j as int),
                    base.len() + j <= w,
                decreases n - j,
            {
                out.push((label.as_str().get_char(j), look));
                proof {
                    assert(cells[j as int] == (label@[j as int], look));
                    assert(out@ =~= base + cells.take(j + 1));
                }
                j += 1;
            }
            if out.len() < w {
                out.push(('│', TabLook::Separator));
                proof {
                    assert(cells.take(j as int).push(('│', TabLook::Separator)) =~= cells);
                }
            }
            proof {
                assert(all_cells(self.tabs@.take(t + 1)) == base + cells) by {
                    assert(self.tabs@.take(t + 1).drop_last() =~= self.tabs@.take(t as int));
                }
                assert(self.tabs@.take(t + 1).drop_last() =~= self.tabs@.take(t as int));
                assert(self.tabs@.take(t + 1).last() == *tab);
                assert(out@ =~= prefix(all_cells(self.tabs@.take(t + 1)), w as int));
            }
            t += 1;
        }
        proof {
            lemma_prefix_all_cells(self.tabs@, t as int, w as int);
        }
        out
    }
}

proof fn lemma_all_cells_grow(tabs: Seq<TabInfo>, t: int)
    requires
        0 <= t <= tabs.len(),
    ensures
        all_cells(tabs.take(t)).len() <= all_cells(tabs).len(),
        all_cells(tabs) == all_cells(tabs.take(t)) + all_cells(tabs).skip(all_cells(tabs.take(t)).len() as int),
    decreases tabs.len() - t,
{
    if t < tabs.len() {
        lemma_all_cells_grow(tabs.drop_last(), t);
        assert(tabs.drop_last().take(t) =~= tabs.take(t));
        assert(all_cells(tabs) == all_cells(tabs.drop_last()) + tab_cells(tabs.last()));
        let a = all_cells(tabs.take(t));
        let b = all_cells(tabs.drop_last());
        assert(all_cells(tabs) =~= a + all_cells(tabs).skip(a.len() as int));
    } else {
        assert(tabs.take(t) =~= tabs);
        assert(all_cells(tabs).skip(all_cells(tabs).len() as int) =~= Seq::<(char, TabLook)>::empty());
        assert(all_cells(tabs) =~= all_cells(tabs) + Seq::<(char, TabLook)>::empty());
    }
}

proof fn lemma_prefix_all_cells(tabs: Seq<TabInfo>, t: int, w: int)
    requires
        0 <= t <= tabs.len(),
        0 <= w,
        t == tabs.len() || prefix(all_cells(tabs.take(t)), w).len() >= w,
    ensures
        prefix(all_cells(tabs.take(t)), w) == prefix(all_cells(tabs), w),
{
    lemma_all_cells_grow(tabs, t);
    if t == tabs.len() {
        assert(tabs.take(t) =~= tabs);
    } else {
        let a = all_cells(tabs.take(t));
        let full = all_cells(tabs);
        assert(a.len() >= w);
        assert(full.take(w) =~= a.take(w));
    }
}

} // verus!
