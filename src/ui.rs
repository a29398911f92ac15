use vstd::prelude::*;

verus! {

/// Relies on `rand::random::<u64>` (thread-local generator): any `u64`.
#[verifier::external_body]
fn random_u64() -> u64 {
    rand::random::<u64>()
}

/// Identity of a UI element.
#[derive(Clone, Copy, Debug, PartialEq, Eq, Hash, PartialOrd, Ord, Structural)]
pub struct UIElementHandle(pub u64);

impl UIElementHandle {
    pub open spec fn id_spec(&self) -> u64 {
        self.0
    }

    /// A fresh handle with a random identity.
    pub fn new() -> (r: UIElementHandle) {
        UIElementHandle(random_u64())
    }

    /// The handle with the given identity.
    pub fn from(id: u64) -> (r: UIElementHandle)
        ensures
            r == UIElementHandle(id),
    {
        UIElementHandle(id)
    }

    pub fn id(&self) -> (r: u64)
        ensures
            r == self.id_spec(),
    {
        self.0
    }
}

/// A line of text, with its font size in pixels.
pub struct Text {
    pub content: String,
    pub size: u32,
}

/// A box that stacks its children top to bottom, `gap` pixels apart.
pub struct Container {
    pub position: (i32, i32),
    pub size: (i32, i32),
    pub gap: i32,
    pub children: Vec<(Option<UIElementHandle>, UIElement)>,
}

/// A titled, draggable window whose content is a container; a collapsible
/// panel can fold its content away.
pub struct Panel {
    pub position: (i32, i32),
    pub size: (i32, i32),
    pub title: String,
    pub collapsible: bool,
    pub content: Container,
}

/// A clickable box; `on_click` names the command that a click issues.
pub struct Button {
    pub size: (i32, i32),
    pub on_click: u32,
    pub children: Vec<(Option<UIElementHandle>, UIElement)>,
}

/// The kinds of UI elements.
pub enum UIElement {
    Text(Text),
    Container(Container),
    Panel(Panel),
    Button(Button),
}

/// One of the children, or one nested in them at any depth, carries `key`.
pub open spec fn children_have(s: Seq<(Option<UIElementHandle>, UIElement)>, key: UIElementHandle) -> bool
    decreases s,
{
    if s.len() == 0 {
        false
    } else {
        s[0].0 == Some(key) || (match s[0].1 {
            UIElement::Text(_) => false,
            UIElement::Container(c) => children_have(c.children@, key),
            UIElement::Panel(p) => children_have(p.content.children@, key),
            UIElement::Button(b) => children_have(b.children@, key),
        }) || children_have(s.subrange(1, s.len() as int), key)
    }
}

/// The children that an element holds.
pub open spec fn children_of(e: UIElement) -> Seq<(Option<UIElementHandle>, UIElement)> {
    match e {
        UIElement::Text(_) => Seq::empty(),
        UIElement::Container(c) => c.children@,
        UIElement::Panel(p) => p.content.children@,
        UIElement::Button(b) => b.children@,
    }
}

/// The element, or one nested in it at any depth, carries `key`.
pub open spec fn element_has(e: UIElement, key: UIElementHandle) -> bool {
    children_have(children_of(e), key)
}

/// `new` is `old` with the child `c` appended, where the element holds
/// children; a text holds none and stays as it was.
pub open spec fn child_added(old: UIElement, new: UIElement, c: (Option<UIElementHandle>, UIElement)) -> bool {
    match (old, new) {
        (UIElement::Text(a), UIElement::Text(b)) => a == b,
        (UIElement::Container(a), UIElement::Container(b)) => a.position == b.position && a.size
            == b.size && a.gap == b.gap && b.children@ == a.children@.push(c),
        (UIElement::Panel(a), UIElement::Panel(b)) => a.position == b.position && a.size == b.size
            && a.title@ == b.title@ && a.collapsible == b.collapsible && a.content.position
            == b.content.position && a.content.size == b.content.size && a.content.gap
            == b.content.gap && b.content.children@ == a.content.children@.push(c),
        (UIElement::Button(a), UIElement::Button(b)) => a.size == b.size && a.on_click == b.on_click
            && b.children@ == a.children@.push(c),
        _ => false,
    }
}

impl UIElement {
    /// Appends a child, with an optional handle, to an element that holds
    /// children.
    pub fn add_child(&mut self, id: Option<UIElementHandle>, child: UIElement)
        ensures
            child_added(*old(self), *final(self), (id, child)),
    {
        match self {
            UIElement::Text(_) => {},
            UIElement::Container(c) => c.children.push((id, child)),
            UIElement::Panel(p) => p.content.children.push((id, child)),
            UIElement::Button(b) => b.children.push((id, child)),
        }
    }

    /// Whether a child nested in this element, at any depth, carries `key`.
    pub fn contains_child(&self, key: &UIElementHandle) -> (r: bool)
        ensures
            r == element_has(*self, *key),
    {
        match self {
            UIElement::Text(_) => false,
            UIElement::Container(c) => children_contain(&c.children, key),
            UIElement::Panel(p) => children_contain(&p.content.children, key),
            UIElement::Button(b) => children_contain(&b.children, key),
        }
    }
}

fn children_contain(children: &Vec<(Option<UIElementHandle>, UIElement)>, key: &UIElementHandle) -> (r: bool)
    ensures
        r == children_have(children@, *key),
    decreases children@,
{
    let mut i: usize = 0;
    assert(children@.subrange(0, children@.len() as int) =~= children@);
    while i < children.len()
        invariant
            i <= children@.len(),
            children_have(children@, *key) == children_have(
                children@.subrange(i as int, children@.len() as int),
                *key,
            ),
        decreases children@.len() - i,
    {
        let ghost rest = children@.subrange(i as int, children@.len() as int);
        proof {
            assert(rest[0] == children@[i as int]);
            assert(rest.subrange(1, rest.len() as int) =~= children@.subrange(i + 1, children@.len() as int));
        }
        let entry = &children[i];
        let hit = match entry.0 {
            Some(h) => h == *key,
            None => false,
        };
        if hit {
            return true;
        }
        let nested = match &entry.1 {
            UIElement::Text(_) => false,
            UIElement::Container(c) => {
                proof {
                    assert(decreases_to!(children@ => children@[i as int]));
                }
                children_contain(&c.children, key)
            },
            UIElement::Panel(p) => {
                proof {
                    assert(decreases_to!(children@ => children@[i as int]));
                }
                children_contain(&p.content.children, key)
            },
            UIElement::Button(b) => {
                proof {
                    assert(decreases_to!(children@ => children@[i as int]));
                }
                children_contain(&b.children, key)
            },
        };
        if nested {
            return true;
        }
        i += 1;
    }
    proof {
        assert(children@.subrange(i as int, children@.len() as int).len() == 0);
    }
    false
}

pub open spec fn handles_unique<V>(s: Seq<(UIElementHandle, V)>) -> bool {
    forall|i: int, j: int|
        0 <= i < s.len() && 0 <= j < s.len() && i != j ==> (#[trigger] s[i]).0 != (#[trigger] s[j]).0
}

pub open spec fn handle_slot<V>(s: Seq<(UIElementHandle, V)>, k: UIElementHandle, i: int) -> bool {
    0 <= i < s.len() && s[i].0 == k
}

/// The map that a list of entries with unique handles stands for.
pub open spec fn handle_map<V>(s: Seq<(UIElementHandle, V)>) -> Map<UIElementHandle, V> {
    Map::new(
        |k: UIElementHandle| exists|i: int| handle_slot(s, k, i),
        |k: UIElementHandle| s[choose|i: int| handle_slot(s, k, i)].1,
    )
}

proof fn lemma_handle_update<V>(pre: Seq<(UIElementHandle, V)>, i: int, v: V)
    requires
        handles_unique(pre),
        0 <= i < pre.len(),
    ensures
        handles_unique(pre.update(i, (pre[i].0, v))),
        handle_map(pre.update(i, (pre[i].0, v))) == handle_map(pre).insert(pre[i].0, v),
{
    let key = pre[i].0;
    let s = pre.update(i, (key, v));
    assert forall|a: int, b: int| 0 <= a < s.len() && 0 <= b < s.len() && a != b implies (#[trigger] s[a]).0
        != (#[trigger] s[b]).0 by {
        assert(pre[a].0 == s[a].0);
        assert(pre[b].0 == s[b].0);
    }
    assert forall|k: UIElementHandle| #[trigger] handle_map(s).contains_key(k) == handle_map(pre).insert(key, v).contains_key(k) by {
        if exists|j: int| handle_slot(pre, k, j) {
            let j = choose|j: int| handle_slot(pre, k, j);
            assert(handle_slot(s, k, j));
        }
        if exists|j: int| handle_slot(s, k, j) {
            let j = choose|j: int| handle_slot(s, k, j);
            assert(handle_slot(pre, k, j));
        }
        if k == key {
            assert(handle_slot(s, k, i));
        }
    }
    assert forall|k: UIElementHandle| #[trigger] handle_map(s).contains_key(k) implies handle_map(s)[k]
        == handle_map(pre).insert(key, v)[k] by {
        let j = choose|j: int| handle_slot(s, k, j);
        if k == key {
            assert(j == i);
        } else {
            assert(handle_slot(pre, k, j));
            let j2 = choose|j2: int| handle_slot(pre, k, j2);
            assert(j2 == j);
        }
    }
    assert(handle_map(s) =~= handle_map(pre).insert(key, v));
}

proof fn lemma_handle_push<V>(pre: Seq<(UIElementHandle, V)>, key: UIElementHandle, v: V)
    requires
        handles_unique(pre),
        forall|j: int| !handle_slot(pre, key, j),
    ensures
        handles_unique(pre.push((key, v))),
        handle_map(pre.push((key, v))) == handle_map(pre).insert(key, v),
{
    let s = pre.push((key, v));
    assert forall|a: int, b: int| 0 <= a < s.len() && 0 <= b < s.len() && a != b implies (#[trigger] s[a]).0
        != (#[trigger] s[b]).0 by {
        if a < pre.len() && b < pre.len() {
            assert(pre[a] == s[a]);
            assert(pre[b] == s[b]);
        } else if a < pre.len() {
            assert(pre[a] == s[a]);
            assert(!handle_slot(pre, key, a));
        } else if b < pre.len() {
            assert(pre[b] == s[b]);
            assert(!handle_slot(pre, key, b));
        }
    }
    assert forall|k: UIElementHandle| #[trigger] handle_map(s).contains_key(k) == handle_map(pre).insert(key, v).contains_key(k) by {
        if exists|j: int| handle_slot(pre, k, j) {
            let j = choose|j: int| handle_slot(pre, k, j);
            assert(s[j] == pre[j]);
            assert(handle_slot(s, k, j));
        }
        if exists|j: int| handle_slot(s, k, j) {
            let j = choose|j: int| handle_slot(s, k, j);
            if j < pre.len() {
                assert(s[j] == pre[j]);
                assert(handle_slot(pre, k, j));
            }
        }
        if k == key {
            assert(handle_slot(s, k, pre.len() as int));
        }
    }
    assert forall|k: UIElementHandle| #[trigger] handle_map(s).contains_key(k) implies handle_map(s)[k]
        == handle_map(pre).insert(key, v)[k] by {
        let j = choose|j: int| handle_slot(s, k, j);
        if k == key {
            assert(handle_slot(s, k, pre.len() as int));
            assert(j == pre.len());
        } else {
            assert(j < pre.len());
            assert(s[j] == pre[j]);
            assert(handle_slot(pre, k, j));
            let j2 = choose|j2: int| handle_slot(pre, k, j2);
            assert(j2 == j);
        }
    }
    assert(handle_map(s) =~= handle_map(pre).insert(key, v));
}

/// The top-level UI elements, keyed by handle, each handle at most once.
pub struct UIRenderer {
    children: Vec<(UIElementHandle, UIElement)>,
}

impl UIRenderer {
    pub closed spec fn entries(&self) -> Seq<(UIElementHandle, UIElement)> {
        self.children@
    }

    pub open spec fn wf(&self) -> bool {
        handles_unique(self.entries())
    }

    pub open spec fn view(&self) -> Map<UIElementHandle, UIElement> {
        handle_map(self.entries())
    }

    /// `key` names a top-level element, or an element nested in one.
    pub open spec fn has_key(&self, key: UIElementHandle) -> bool {
        self.view().contains_key(key) || exists|k: UIElementHandle|
            self.view().contains_key(k) && element_has(#[trigger] self.view()[k], key)
    }

    pub fn new() -> (r: UIRenderer)
        ensures
            r.wf(),
            r.view() == Map::<UIElementHandle, UIElement>::empty(),
    {
        let r = UIRenderer { children: Vec::new() };
        assert(r.view() =~= Map::<UIElementHandle, UIElement>::empty());
        r
    }

    fn find(&self, key: &UIElementHandle) -> (r: Option<usize>)
        requires
            self.wf(),
        ensures
            r matches Some(i) ==> handle_slot(self.entries(), *key, i as int),
            r is None ==> forall|i: int| !handle_slot(self.entries(), *key, i),
    {
        let mut i: usize = 0;
        while i < self.children.len()
            invariant
                i <= self.children@.len(),
                forall|j: int| 0 <= j < i ==> !handle_slot(self.children@, *key, j),
            decreases self.children@.len() - i,
        {
            if self.children[i].0 == *key {
                return Some(i);
            }
            i += 1;
        }
        None
    }

    /// Puts an element at the top level under `key`, replacing the element
    /// held there.
    pub fn insert(&mut self, key: UIElementHandle, element: UIElement)
        requires
            old(self).wf(),
        ensures
            final(self).wf(),
            final(self).view() == old(self).view().insert(key, element),
    {
        let ghost pre = self.children@;
        match self.find(&key) {
            Some(i) => {
                let _ = self.children.remove(i);
                self.children.insert(i, (key, element));
                proof {
                    assert(self.children@ =~= pre.update(i as int, (pre[i as int].0, element)));
                    lemma_handle_update(pre, i as int, element);
                }
            },
            None => {
                self.children.push((key, element));
                proof {
                    lemma_handle_push(pre, key, element);
                }
            },
        }
    }

    /// Puts an element at the top level under a fresh random handle, which it
    /// returns.
    pub fn add(&mut self, element: UIElement) -> (r: UIElementHandle)
        requires
            old(self).wf(),
        ensures
            final(self).wf(),
            final(self).view() == old(self).view().insert(r, element),
    {
        let handle = UIElementHandle::new();
        self.insert(handle, element);
        handle
    }

    fn attach(&mut self, parent: UIElementHandle, id: Option<UIElementHandle>, element: UIElement)
        requires
            old(self).wf(),
        ensures
            final(self).wf(),
            final(self).view().dom() == old(self).view().dom(),
            forall|k: UIElementHandle|
                #![trigger final(self).view()[k]]
                old(self).view().contains_key(k) && k != parent ==> final(self).view()[k] == old(
                    self,
                ).view()[k],
            old(self).view().contains_key(parent) ==> child_added(
                old(self).view()[parent],
                final(self).view()[parent],
                (id, element),
            ),
    {
        let ghost pre = self.children@;
        match self.find(&parent) {
            Some(i) => {
                let mut entry = self.children.remove(i);
                entry.1.add_child(id, element);
                let ghost e = entry.1;
                self.children.insert(i, entry);
                proof {
                    assert(self.children@ =~= pre.update(i as int, (pre[i as int].0, e)));
                    lemma_handle_update(pre, i as int, e);
                    let j = choose|j: int| handle_slot(pre, parent, j);
                    assert(j == i);
                    assert(self.view() == handle_map(pre).insert(parent, e));
                    assert(self.view().dom() =~= old(self).view().dom());
                }
            },
            None => {
                proof {
                    assert(!old(self).view().contains_key(parent));
                }
            },
        }
    }

    /// Appends an element without a handle to the top-level element
    /// `parent`; nothing happens when there is none.
    pub fn insert_to(&mut self, parent: UIElementHandle, element: UIElement)
        requires
            old(self).wf(),
        ensures
            final(self).wf(),
            final(self).view().dom() == old(self).view().dom(),
            forall|k: UIElementHandle|
                #![trigger final(self).view()[k]]
                old(self).view().contains_key(k) && k != parent ==> final(self).view()[k] == old(
                    self,
                ).view()[k],
            old(self).view().contains_key(parent) ==> child_added(
                old(self).view()[parent],
                final(self).view()[parent],
                (None, element),
            ),
    {
        self.attach(parent, None, element);
    }

    /// Appends an element under handle `id` to the top-level element
    /// `parent`; nothing happens when there is none.
    pub fn insert_to_with_id(&mut self, parent: UIElementHandle, id: UIElementHandle, element: UIElement)
        requires
            old(self).wf(),
        ensures
            final(self).wf(),
            final(self).view().dom() == old(self).view().dom(),
            forall|k: UIElementHandle|
                #![trigger final(self).view()[k]]
                old(self).view().contains_key(k) && k != parent ==> final(self).view()[k] == old(
                    self,
                ).view()[k],
            old(self).view().contains_key(parent) ==> child_added(
                old(self).view()[parent],
                final(self).view()[parent],
                (Some(id), element),
            ),
    {
        self.attach(parent, Some(id), element);
    }

    /// Whether `key` names a top-level element or an element nested in one.
    pub fn contains_key(&self, key: &UIElementHandle) -> (r: bool)
        requires
            self.wf(),
        ensures
            r == self.has_key(*key),
    {
        let mut i: usize = 0;
        while i < self.children.len()
            invariant
                self.wf(),
                i <= self.children@.len(),
                forall|j: int| 0 <= j < i ==> (#[trigger] self.children@[j]).0 != *key,
                forall|j: int| 0 <= j < i ==> !element_has((#[trigger] self.children@[j]).1, *key),
            decreases self.children@.len() - i,
        {
            if self.children[i].0 == *key {
                proof {
                    assert(handle_slot(self.entries(), *key, i as int));
                }
                return true;
            }
            if self.children[i].1.contains_child(key) {
                proof {
                    let k = self.children@[i as int].0;
                    assert(handle_slot(self.entries(), k, i as int));
                    let j = choose|j: int| handle_slot(self.entries(), k, j);
                    assert(j == i);
                    assert(self.view().contains_key(k) && element_has(self.view()[k], *key));
                }
                return true;
            }
            i += 1;
        }
        proof {
            assert(!self.view().contains_key(*key));
            assert forall|k: UIElementHandle| !(self.view().contains_key(k) && element_has(#[trigger] self.view()[k], *key)) by {
                if self.view().contains_key(k) {
                    let j = choose|j: int| handle_slot(self.entries(), k, j);
                    assert(!element_has(self.children@[j].1, *key));
                }
            }
        }
        false
    }

    /// The top-level elements with their handles, in the order they were
    /// first added.
    pub fn elements(&self) -> (r: &Vec<(UIElementHandle, UIElement)>)
        ensures
            r@ == self.entries(),
    {
        &self.children
    }
}

/// Gap between the children of a container, in pixels.
pub const CONTAINER_GAP: i32 = 5;

/// Height of a panel's header and footer together, in pixels.
pub const PANEL_CHROME_HEIGHT: i32 = 40;

/// Font size of a button's label, in pixels.
pub const BUTTON_TEXT_SIZE: u32 = 16;

/// Each element, in order, as a child without a handle.
pub open spec fn unnamed(s: Seq<UIElement>) -> Seq<(Option<UIElementHandle>, UIElement)> {
    Seq::new(s.len(), |i: int| (None::<UIElementHandle>, s[i]))
}

/// Height left for a panel's content: the panel's height less its chrome,
/// and never negative.
pub open spec fn content_height(h: i32) -> i32 {
    if h >= PANEL_CHROME_HEIGHT {
        (h - PANEL_CHROME_HEIGHT) as i32
    } else {
        0
    }
}

/// Height that an element takes in a stack: its box height; for a text,
/// its font size.
pub open spec fn element_height(e: UIElement) -> int {
    match e {
        UIElement::Text(t) => t.size as int,
        UIElement::Container(c) => c.size.1 as int,
        UIElement::Panel(p) => p.size.1 as int,
        UIElement::Button(b) => b.size.1 as int,
    }
}

/// Vertical space taken by the first `i` children, each followed by `gap`.
pub open spec fn stacked_before(s: Seq<(Option<UIElementHandle>, UIElement)>, i: int, gap: int) -> int
    decreases i,
{
    if i <= 0 {
        0
    } else {
        stacked_before(s, i - 1, gap) + element_height(s[i - 1].1) + gap
    }
}

/// Where a container places child `i`, relative to the container's parent:
/// `gap` in from the container's left edge, and below the children before
/// it, each followed by `gap`, with `gap` above the first.
pub open spec fn child_position(c: Container, i: int) -> (int, int) {
    (c.position.0 + c.gap, c.position.1 + c.gap + stacked_before(c.children@, i, c.gap as int))
}

pub open spec fn fits_i32(v: int) -> bool {
    i32::MIN <= v <= i32::MAX
}

impl UIElement {
    /// Height that the element takes in a stack.
    pub fn height(&self) -> (r: i64)
        ensures
            r as int == element_height(*self),
            i32::MIN <= r <= u32::MAX,
    {
        match self {
            UIElement::Text(t) => t.size as i64,
            UIElement::Container(c) => c.size.1 as i64,
            UIElement::Panel(p) => p.size.1 as i64,
            UIElement::Button(b) => b.size.1 as i64,
        }
    }
}

impl Container {
    /// Where the container places child `i`, relative to its parent; `None`
    /// when that position does not fit the pixel range.
    pub fn child_offset(&self, i: usize) -> (r: Option<(i32, i32)>)
        requires
            i < self.children@.len(),
        ensures
            r is Some <==> fits_i32(child_position(*self, i as int).0) && fits_i32(child_position(*self, i as int).1),
            r matches Some(p) ==> p.0 as int == child_position(*self, i as int).0 && p.1 as int
                == child_position(*self, i as int).1,
    {
        let gap = self.gap as i128;
        let mut acc: i128 = 0;
        let mut j: usize = 0;
        while j < i
            invariant
                i < self.children@.len(),
                j <= i,
                gap == self.gap as int,
                acc as int == stacked_before(self.children@, j as int, gap as int),
                -(j as int) * 0x2_0000_0000 <= acc <= (j as int) * 0x2_0000_0000,
            decreases i - j,
        {
            let h = self.children[j].1.height() as i128;
            acc = acc + h + gap;
            j += 1;
        }
        let x = self.position.0 as i128 + gap;
        let y = self.position.1 as i128 + gap + acc;
        if i32::MIN as i128 <= x && x <= i32::MAX as i128 && i32::MIN as i128 <= y && y <= i32::MAX as i128 {
            Some((x as i32, y as i32))
        } else {
            None
        }
    }

    /// An empty container.
    pub fn new(position: (i32, i32), size: (i32, i32)) -> (r: Container)
        ensures
            r.position == position,
            r.size == size,
            r.gap == CONTAINER_GAP,
            r.children@.len() == 0,
    {
        Container { position, size, gap: CONTAINER_GAP, children: Vec::new() }
    }
}

impl Panel {
    /// An empty panel; its content container sits below the header, as wide
    /// as the panel and as tall as what the chrome leaves.
    pub fn new(position: (i32, i32), size: (i32, i32), title: String) -> (r: Panel)
        ensures
            r.position == position,
            r.size == size,
            r.title@ == title@,
            !r.collapsible,
            r.content.position == (0i32, 0i32),
            r.content.size == (size.0, content_height(size.1)),
            r.content.gap == CONTAINER_GAP,
            r.content.children@.len() == 0,
    {
        let height = if size.1 >= PANEL_CHROME_HEIGHT {
            size.1 - PANEL_CHROME_HEIGHT
        } else {
            0
        };
        Panel { position, size, title, collapsible: false, content: Container::new((0, 0), (size.0, height)) }
    }
}

fn unnamed_children(children: Vec<UIElement>) -> (r: Vec<(Option<UIElementHandle>, UIElement)>)
    ensures
        r@ == unnamed(children@),
{
    let ghost all = children@;
    let mut rest = children;
    let mut out: Vec<(Option<UIElementHandle>, UIElement)> = Vec::new();
    while rest.len() > 0
        invariant
            out@.len() + rest@.len() == all.len(),
            rest@ == all.subrange(out@.len() as int, all.len() as int),
            out@ == unnamed(all.take(out@.len() as int)),
        decreases rest@.len(),
    {
        let c = rest.remove(0);
        let ghost k = out@.len() as int;
        out.push((None, c));
        proof {
            assert(rest@ =~= all.subrange(k + 1, all.len() as int));
            assert(out@ =~= unnamed(all.take(k + 1)));
        }
    }
    proof {
        assert(all.take(all.len() as int) =~= all);
    }
    out
}

/// Builds a `Container`.
pub struct ContainerBuilder {
    pub position: (i32, i32),
    pub size: (i32, i32),
    pub children: Vec<UIElement>,
}

impl ContainerBuilder {
    pub fn new() -> (r: ContainerBuilder)
        ensures
            r.position == (0i32, 0i32),
            r.size == (0i32, 0i32),
            r.children@.len() == 0,
    {
        ContainerBuilder { position: (0, 0), size: (0, 0), children: Vec::new() }
    }

    pub fn position(self, x: i32, y: i32) -> (r: ContainerBuilder)
        ensures
            r.position == (x, y),
            r.size == self.size,
            r.children@ == self.children@,
    {
        ContainerBuilder { position: (x, y), size: self.size, children: self.children }
    }

    pub fn size(self, width: i32, height: i32) -> (r: ContainerBuilder)
        ensures
            r.position == self.position,
            r.size == (width, height),
            r.children@ == self.children@,
    {
        ContainerBuilder { position: self.position, size: (width, height), children: self.children }
    }

    pub fn add_child(self, child: UIElement) -> (r: ContainerBuilder)
        ensures
            r.position == self.position,
            r.size == self.size,
            r.children@ == self.children@.push(child),
    {
        let mut children = self.children;
        children.push(child);
        ContainerBuilder { position: self.position, size: self.size, children }
    }

    /// The container, its children stacked in the order they were added.
    pub fn build(self) -> (r: Container)
        ensures
            r.position == self.position,
            r.size == self.size,
            r.gap == CONTAINER_GAP,
            r.children@ == unnamed(self.children@),
    {
        let container = Container::new(self.position, self.size);
        Container { children: unnamed_children(self.children), ..container }
    }
}

/// Builds a `Panel`.
pub struct PanelBuilder {
    pub position: (i32, i32),
    pub size: (i32, i32),
    pub title: String,
    pub collapsible: bool,
    pub children: Vec<UIElement>,
}

/// The panel that `build` makes of a builder.
pub open spec fn panel_built(b: PanelBuilder, p: Panel) -> bool {
    &&& p.position == b.position
    &&& p.size == b.size
    &&& p.title@ == b.title@
    &&& p.collapsible == b.collapsible
    &&& p.content.position == (0i32, 0i32)
    &&& p.content.size == (b.size.0, content_height(b.size.1))
    &&& p.content.gap == CONTAINER_GAP
    &&& p.content.children@ == unnamed(b.children@)
}

impl PanelBuilder {
    pub fn new(title: &str) -> (r: PanelBuilder)
        ensures
            r.position == (0i32, 0i32),
            r.size == (0i32, 0i32),
            r.title@ == title@,
            !r.collapsible,
            r.children@.len() == 0,
    {
        PanelBuilder {
            position: (0, 0),
            size: (0, 0),
            title: title.to_owned(),
            collapsible: false,
            children: Vec::new(),
        }
    }

    pub fn position(self, x: i32, y: i32) -> (r: PanelBuilder)
        ensures
            r.position == (x, y),
            r.size == self.size,
            r.title@ == self.title@,
            r.collapsible == self.collapsible,
            r.children@ == self.children@,
    {
        PanelBuilder { position: (x, y), ..self }
    }

    pub fn size(self, width: i32, height: i32) -> (r: PanelBuilder)
        ensures
            r.position == self.position,
            r.size == (width, height),
            r.title@ == self.title@,
            r.collapsible == self.collapsible,
            r.children@ == self.children@,
    {
        PanelBuilder { size: (width, height), ..self }
    }

    /// Lets the panel fold its content away.
    pub fn collapsible(self) -> (r: PanelBuilder)
        ensures
            r.position == self.position,
            r.size == self.size,
            r.title@ == self.title@,
            r.collapsible,
            r.children@ == self.children@,
    {
        PanelBuilder { collapsible: true, ..self }
    }

    pub fn add_child(self, child: UIElement) -> (r: PanelBuilder)
        ensures
            r.position == self.position,
            r.size == self.size,
            r.title@ == self.title@,
            r.collapsible == self.collapsible,
            r.children@ == self.children@.push(child),
    {
        let mut children = self.children;
        children.push(child);
        PanelBuilder { children, ..self }
    }

    /// The panel: its content is a container below the header, as wide as
    /// the panel, holding the children in the order they were added.
    pub fn build(self) -> (r: Panel)
        ensures
            panel_built(self, r),
    {
        let panel = Panel::new(self.position, self.size, self.title);
        let children = unnamed_children(self.children);
        Panel {
            collapsible: self.collapsible,
            content: Container { children, ..panel.content },
            ..panel
        }
    }
}

/// Builds a `Button`.
pub struct ButtonBuilder {
    pub size: (i32, i32),
    pub on_click: u32,
    pub children: Vec<UIElement>,
}

impl ButtonBuilder {
    pub fn new() -> (r: ButtonBuilder)
        ensures
            r.size == (0i32, 0i32),
            r.on_click == 0,
            r.children@.len() == 0,
    {
        ButtonBuilder { size: (0, 0), on_click: 0, children: Vec::new() }
    }

    pub fn on_click(self, command: u32) -> (r: ButtonBuilder)
        ensures
            r.size == self.size,
            r.on_click == command,
            r.children@ == self.children@,
    {
        ButtonBuilder { on_click: command, ..self }
    }

    pub fn size(self, width: i32, height: i32) -> (r: ButtonBuilder)
        ensures
            r.size == (width, height),
            r.on_click == self.on_click,
            r.children@ == self.children@,
    {
        ButtonBuilder { size: (width, height), ..self }
    }

    pub fn add_child(self, child: UIElement) -> (r: ButtonBuilder)
        ensures
            r.size == self.size,
            r.on_click == self.on_click,
            r.children@ == self.children@.push(child),
    {
        let mut children = self.children;
        children.push(child);
        ButtonBuilder { children, ..self }
    }

    pub fn build(self) -> (r: Button)
        ensures
            r.size == self.size,
            r.on_click == self.on_click,
            r.children@ == unnamed(self.children@),
    {
        Button { size: self.size, on_click: self.on_click, children: unnamed_children(self.children) }
    }
}

/// Constructors of UI elements, each handing a preset builder to `init_fn`
/// for the caller's settings.
pub struct UI;

impl UI {
    /// A text element of the given font size, passed through `init_fn`.
    pub fn text<F: FnOnce(Text) -> Text>(text: &str, size: u32, init_fn: F) -> (r: UIElement)
        requires
            forall|t: Text| init_fn.requires((t,)),
        ensures
            exists|t0: Text, t: Text|
                t0.content@ == text@ && t0.size == size && init_fn.ensures((t0,), t) && r
                    == UIElement::Text(t),
    {
        let t = init_fn(Text { content: text.to_owned(), size });
        UIElement::Text(t)
    }

    /// A collapsible panel, 200 by 200 pixels unless `init_fn` says
    /// otherwise.
    pub fn collapsible<F: FnOnce(PanelBuilder) -> PanelBuilder>(title: &str, init_fn: F) -> (r: UIElement)
        requires
            forall|b: PanelBuilder| init_fn.requires((b,)),
        ensures
            exists|b0: PanelBuilder, b: PanelBuilder|
                {
                    &&& b0.position == (0i32, 0i32)
                    &&& b0.size == (200i32, 200i32)
                    &&& b0.title@ == title@
                    &&& b0.collapsible
                    &&& b0.children@.len() == 0
                    &&& init_fn.ensures((b0,), b)
                    &&& r matches UIElement::Panel(p) && panel_built(b, p)
                },
    {
        let builder = PanelBuilder::new(title).size(200, 200).collapsible();
        let builder = init_fn(builder);
        UIElement::Panel(builder.build())
    }

    /// A button issuing command `on_click`, 100 by 20 pixels and labelled
    /// `text` unless `init_fn` says otherwise.
    pub fn button<F: FnOnce(ButtonBuilder) -> ButtonBuilder>(text: &str, on_click: u32, init_fn: F) -> (r: UIElement)
        requires
            forall|b: ButtonBuilder| init_fn.requires((b,)),
        ensures
            exists|b0: ButtonBuilder, b: ButtonBuilder|
                {
                    &&& b0.size == (100i32, 20i32)
                    &&& b0.on_click == on_click
                    &&& b0.children@.len() == 1
                    &&& b0.children@[0] matches UIElement::Text(t) && t.content@ == text@ && t.size == BUTTON_TEXT_SIZE
                    &&& init_fn.ensures((b0,), b)
                    &&& r matches UIElement::Button(bt) && bt.size == b.size && bt.on_click == b.on_click
                        && bt.children@ == unnamed(b.children@)
                },
    {
        let label = UIElement::Text(Text { content: text.to_owned(), size: BUTTON_TEXT_SIZE });
        let builder = ButtonBuilder::new().on_click(on_click).size(100, 20).add_child(label);
        let builder = init_fn(builder);
        UIElement::Button(builder.build())
    }

    /// A panel, 200 by 200 pixels unless `init_fn` says otherwise.
    pub fn panel<F: FnOnce(PanelBuilder) -> PanelBuilder>(title: &str, init_fn: F) -> (r: UIElement)
        requires
            forall|b: PanelBuilder| init_fn.requires((b,)),
        ensures
            exists|b0: PanelBuilder, b: PanelBuilder|
                {
                    &&& b0.position == (0i32, 0i32)
                    &&& b0.size == (200i32, 200i32)
                    &&& b0.title@ == title@
                    &&& !b0.collapsible
                    &&& b0.children@.len() == 0
                    &&& init_fn.ensures((b0,), b)
                    &&& r matches UIElement::Panel(p) && panel_built(b, p)
                },
    {
        let builder = PanelBuilder::new(title).size(200, 200);
        let builder = init_fn(builder);
        UIElement::Panel(builder.build())
    }
}

} // verus!
