//! The correlation engine: pending records, the bounded history and the icon
//! cache, driven one event at a time.

use crate::cache::{icon_path, icon_path_of, release_deletes, released, stored, IconCache};
use crate::notification::{
    created_record, new_record, views, CreateEvent, Event, IconInput, Notification,
    NotificationView, RawImage,
};
use vstd::prelude::*;

verus! {

/// Mathematical model of an [`Engine`].
pub struct EngineView {
    pub pending: Seq<NotificationView>,
    pub history: Seq<NotificationView>,
    pub capacity: nat,
    pub cache: Map<Seq<char>, nat>,
    pub cache_dir: Seq<char>,
}

/// A state the engine can be in: a positive capacity that bounds the history.
pub open spec fn valid(s: EngineView) -> bool {
    0 < s.capacity && s.history.len() <= s.capacity
}

/// `i` is the first position in `s` whose serial is `serial`.
pub open spec fn is_first_serial(s: Seq<NotificationView>, serial: u32, i: int) -> bool {
    &&& 0 <= i < s.len()
    &&& s[i].serial == serial
    &&& forall|j: int| 0 <= j < i ==> (#[trigger] s[j]).serial != serial
}

/// `i` is the first position in `s` whose id is `id`.
pub open spec fn is_first_id(s: Seq<NotificationView>, id: u32, i: int) -> bool {
    &&& 0 <= i < s.len()
    &&& s[i].id == id
    &&& forall|j: int| 0 <= j < i ==> (#[trigger] s[j]).id != id
}

/// First position with this serial, or -1.
pub open spec fn first_serial(s: Seq<NotificationView>, serial: u32) -> int {
    if exists|i: int| is_first_serial(s, serial, i) {
        choose|i: int| is_first_serial(s, serial, i)
    } else {
        -1
    }
}

/// First position with this id, or -1.
pub open spec fn first_id(s: Seq<NotificationView>, id: u32) -> int {
    if exists|i: int| is_first_id(s, id, i) {
        choose|i: int| is_first_id(s, id, i)
    } else {
        -1
    }
}

proof fn lemma_some_first_serial(s: Seq<NotificationView>, serial: u32, j: int)
    requires
        0 <= j < s.len(),
        s[j].serial == serial,
    ensures
        exists|i: int| is_first_serial(s, serial, i),
    decreases j,
{
    if exists|m: int| 0 <= m < j && s[m].serial == serial {
        let m = choose|m: int| 0 <= m < j && s[m].serial == serial;
        lemma_some_first_serial(s, serial, m);
    } else {
        assert(is_first_serial(s, serial, j));
    }
}

pub proof fn lemma_first_serial(s: Seq<NotificationView>, serial: u32)
    ensures
        first_serial(s, serial) == -1 || is_first_serial(s, serial, first_serial(s, serial)),
        first_serial(s, serial) == -1 <==> forall|j: int| 0 <= j < s.len() ==> (#[trigger] s[j]).serial != serial,
        forall|i: int| is_first_serial(s, serial, i) ==> first_serial(s, serial) == i,
{
    if exists|i: int| is_first_serial(s, serial, i) {
        let k = choose|i: int| is_first_serial(s, serial, i);
        assert forall|i: int| is_first_serial(s, serial, i) implies k == i by {
            if i < k {
                assert(s[i].serial != serial);
            } else if k < i {
                assert(s[k].serial != serial);
            }
        }
    } else {
        assert forall|j: int| 0 <= j < s.len() implies (#[trigger] s[j]).serial != serial by {
            if s[j].serial == serial {
                lemma_some_first_serial(s, serial, j);
            }
        }
    }
}

proof fn lemma_some_first_id(s: Seq<NotificationView>, id: u32, j: int)
    requires
        0 <= j < s.len(),
        s[j].id == id,
    ensures
        exists|i: int| is_first_id(s, id, i),
    decreases j,
{
    if exists|m: int| 0 <= m < j && s[m].id == id {
        let m = choose|m: int| 0 <= m < j && s[m].id == id;
        lemma_some_first_id(s, id, m);
    } else {
        assert(is_first_id(s, id, j));
    }
}

pub proof fn lemma_first_id(s: Seq<NotificationView>, id: u32)
    ensures
        first_id(s, id) == -1 || is_first_id(s, id, first_id(s, id)),
        first_id(s, id) == -1 <==> forall|j: int| 0 <= j < s.len() ==> (#[trigger] s[j]).id != id,
        forall|i: int| is_first_id(s, id, i) ==> first_id(s, id) == i,
{
    if exists|i: int| is_first_id(s, id, i) {
        let k = choose|i: int| is_first_id(s, id, i);
        assert forall|i: int| is_first_id(s, id, i) implies k == i by {
            if i < k {
                assert(s[i].id != id);
            } else if k < i {
                assert(s[k].id != id);
            }
        }
    } else {
        assert forall|j: int| 0 <= j < s.len() implies (#[trigger] s[j]).id != id by {
            if s[j].id == id {
                lemma_some_first_id(s, id, j);
            }
        }
    }
}

/// The record with its id set.
pub open spec fn with_id(n: NotificationView, id: u32) -> NotificationView {
    NotificationView { serial: n.serial, appname: n.appname, summary: n.summary, body: n.body, icon: n.icon, urgency: n.urgency, id }
}

/// The record with its icon cleared.
pub open spec fn without_icon(n: NotificationView) -> NotificationView {
    NotificationView { serial: n.serial, appname: n.appname, summary: n.summary, body: n.body, icon: Seq::empty(), urgency: n.urgency, id: n.id }
}

/// The icon a creation call gets: a raw payload is referenced by its cache
/// path unless its count can grow no further, in which case it gets none.
pub open spec fn create_icon(s: EngineView, icon: IconInput) -> Seq<char> {
    match icon {
        IconInput::Resolved(p) => p@,
        IconInput::Raw(img) => {
            let path = icon_path_of(s.cache_dir, img.data@);
            if s.cache.contains_key(path) && s.cache[path] >= u64::MAX {
                Seq::empty()
            } else {
                path
            }
        },
    }
}

/// The cache index after a creation call.
pub open spec fn create_cache(s: EngineView, icon: IconInput) -> Map<Seq<char>, nat> {
    match icon {
        IconInput::Resolved(_) => s.cache,
        IconInput::Raw(img) => {
            let path = icon_path_of(s.cache_dir, img.data@);
            if s.cache.contains_key(path) && s.cache[path] >= u64::MAX {
                s.cache
            } else {
                stored(s.cache, path)
            }
        },
    }
}

/// A creation call adds a pending record; without a serial it changes nothing.
pub open spec fn after_create(s: EngineView, ev: CreateEvent) -> EngineView {
    match ev.serial {
        None => s,
        Some(serial) => EngineView {
            pending: s.pending.push(created_record(ev, serial, create_icon(s, ev.icon))),
            cache: create_cache(s, ev.icon),
            ..s
        },
    }
}

/// A reply sets the id of the first pending record with its serial.
pub open spec fn after_return(s: EngineView, reply_serial: u32, id: u32) -> EngineView {
    let i = first_serial(s.pending, reply_serial);
    if i >= 0 {
        EngineView { pending: s.pending.update(i, with_id(s.pending[i], id)), ..s }
    } else {
        s
    }
}

/// The pending record a close signal finalizes, or -1. Records without an
/// id (id 0) are never closed.
pub open spec fn close_index(s: EngineView, id: u32) -> int {
    if id == 0 {
        -1
    } else {
        first_id(s.pending, id)
    }
}

/// The history with its oldest record dropped if it is full.
pub open spec fn make_room(s: EngineView) -> Seq<NotificationView> {
    if s.history.len() >= s.capacity {
        s.history.drop_first()
    } else {
        s.history
    }
}

/// A close signal moves the matching pending record to the end of the history.
pub open spec fn after_close(s: EngineView, id: u32) -> EngineView {
    let i = close_index(s, id);
    if i >= 0 {
        EngineView { pending: s.pending.remove(i), history: make_room(s).push(s.pending[i]), ..s }
    } else {
        s
    }
}

/// A removal drops the first history record with the id and releases its icon.
pub open spec fn after_remove(s: EngineView, id: u32) -> EngineView {
    let i = first_id(s.history, id);
    if i >= 0 {
        EngineView { history: s.history.remove(i), cache: released(s.cache, s.history[i].icon), ..s }
    } else {
        s
    }
}

/// Clearing empties the pending records, the history and the cache index.
pub open spec fn after_clear(s: EngineView) -> EngineView {
    EngineView { pending: Seq::empty(), history: Seq::empty(), cache: Map::empty(), ..s }
}

/// A failed icon write leaves the record without an icon and releases the path.
pub open spec fn after_icon_failure(s: EngineView, serial: u32, path: Seq<char>) -> EngineView {
    let i = first_serial(s.pending, serial);
    if i >= 0 && s.pending[i].icon == path {
        EngineView { pending: s.pending.update(i, without_icon(s.pending[i])), cache: released(s.cache, path), ..s }
    } else {
        s
    }
}

/// The state after one event.
pub open spec fn step(s: EngineView, e: Event) -> EngineView {
    match e {
        Event::Create(ev) => after_create(s, ev),
        Event::Return { reply_serial, id } => after_return(s, reply_serial, id),
        Event::Closed { id } => after_close(s, id),
        Event::RemoveFromHistory { id } => after_remove(s, id),
        Event::ClearHistory => after_clear(s),
        Event::IconWriteFailed { serial, path } => after_icon_failure(s, serial, path@),
        Event::Other => s,
    }
}

/// Whether the event changes the visible history, so that a snapshot is emitted.
pub open spec fn emits(s: EngineView, e: Event) -> bool {
    match e {
        Event::Closed { id } => close_index(s, id) >= 0,
        Event::RemoveFromHistory { id } => first_id(s.history, id) >= 0,
        Event::ClearHistory => true,
        _ => false,
    }
}

/// Why an event was abandoned.
#[derive(Debug, Clone, Copy, PartialEq, Eq)]
pub enum EngineError {
    /// A creation call without a serial.
    MissingSerial,
    /// A removal of an id that is not in the history.
    UnknownHistoryId(u32),
}

/// The error an event ends with, if any.
pub open spec fn error_of(s: EngineView, e: Event) -> Option<EngineError> {
    match e {
        Event::Create(ev) => if ev.serial is None { Some(EngineError::MissingSerial) } else { None },
        Event::RemoveFromHistory { id } => if first_id(s.history, id) < 0 { Some(EngineError::UnknownHistoryId(id)) } else { None },
        _ => None,
    }
}

/// Whether the event makes the file at `p` obsolete.
pub open spec fn deletes(s: EngineView, e: Event, p: Seq<char>) -> bool {
    match e {
        Event::RemoveFromHistory { id } => {
            let i = first_id(s.history, id);
            i >= 0 && p == s.history[i].icon && release_deletes(s.cache, p)
        },
        Event::ClearHistory => s.cache.contains_key(p),
        Event::IconWriteFailed { serial, path } => {
            let i = first_serial(s.pending, serial);
            i >= 0 && s.pending[i].icon == path@ && p == path@ && release_deletes(s.cache, p)
        },
        _ => false,
    }
}

/// Whether a creation call asks for a new icon file, and which.
pub open spec fn writes(s: EngineView, e: Event, w: IconWrite) -> bool {
    match e {
        Event::Create(ev) => match (ev.serial, ev.icon) {
            (Some(serial), IconInput::Raw(img)) => {
                let path = icon_path_of(s.cache_dir, img.data@);
                &&& !s.cache.contains_key(path)
                &&& w.serial == serial
                &&& w.path@ == path
                &&& w.image == img
            },
            _ => false,
        },
        _ => false,
    }
}

/// A new icon file to encode from a raw payload.
#[derive(Debug, Clone, PartialEq, Eq)]
pub struct IconWrite {
    pub serial: u32,
    pub path: String,
    pub image: RawImage,
}

/// What the caller has to carry out after an event.
#[derive(Debug)]
pub struct Outcome {
    /// The history to emit, newest first, when it changed.
    pub snapshot: Option<Vec<Notification>>,
    /// An icon file to write; on failure report `Event::IconWriteFailed`.
    pub write_icon: Option<IconWrite>,
    /// Icon files to delete.
    pub delete_files: Vec<String>,
    /// Why the event was abandoned.
    pub error: Option<EngineError>,
}

/// Pending records, bounded history and icon cache, owned together.
pub struct Engine {
    pending: Vec<Notification>,
    history: Vec<Notification>,
    capacity: usize,
    cache: IconCache,
    cache_dir: String,
}

impl View for Engine {
    type V = EngineView;

    closed spec fn view(&self) -> EngineView {
        EngineView {
            pending: views(self.pending@),
            history: views(self.history@),
            capacity: self.capacity as nat,
            cache: self.cache@,
            cache_dir: self.cache_dir@,
        }
    }
}

fn find_serial(v: &Vec<Notification>, serial: u32) -> (r: Option<usize>)
    ensures
        match r {
            Some(i) => i as int == first_serial(views(v@), serial),
            None => first_serial(views(v@), serial) == -1,
        },
{
    proof { lemma_first_serial(views(v@), serial); }
    let mut i: usize = 0;
    while i < v.len()
        invariant
            i <= v@.len(),
            forall|j: int| 0 <= j < i ==> (#[trigger] v@[j]).serial != serial,
        decreases v@.len() - i,
    {
        if v[i].serial == serial {
            assert(is_first_serial(views(v@), serial, i as int));
            return Some(i);
        }
        i = i + 1;
    }
    None
}

fn find_id(v: &Vec<Notification>, id: u32) -> (r: Option<usize>)
    ensures
        match r {
            Some(i) => i as int == first_id(views(v@), id),
            None => first_id(views(v@), id) == -1,
        },
{
    proof { lemma_first_id(views(v@), id); }
    let mut i: usize = 0;
    while i < v.len()
        invariant
            i <= v@.len(),
            forall|j: int| 0 <= j < i ==> (#[trigger] v@[j]).id != id,
        decreases v@.len() - i,
    {
        if v[i].id == id {
            assert(is_first_id(views(v@), id, i as int));
            return Some(i);
        }
        i = i + 1;
    }
    None
}

/// Whether a creation call asks for a new icon file to be written.
pub open spec fn asks_write(s: EngineView, e: Event) -> bool {
    match e {
        Event::Create(ev) => match (ev.serial, ev.icon) {
            (Some(_), IconInput::Raw(img)) => !s.cache.contains_key(icon_path_of(s.cache_dir, img.data@)),
            _ => false,
        },
        _ => false,
    }
}

impl Engine {
    /// The engine's invariant: a well-formed cache and a history within bounds.
    pub closed spec fn wf(&self) -> bool {
        self.cache.wf() && valid(self@)
    }

    /// An engine with nothing observed yet, keeping at most `capacity` closed
    /// records and writing icons under `cache_dir`.
    pub fn new(capacity: usize, cache_dir: String) -> (r: Engine)
        requires
            capacity > 0,
        ensures
            r.wf(),
            r@.pending.len() == 0,
            r@.history.len() == 0,
            r@.capacity == capacity as nat,
            r@.cache == Map::<Seq<char>, nat>::empty(),
            r@.cache_dir == cache_dir@,
    {
        let r = Engine { pending: Vec::new(), history: Vec::new(), capacity, cache: IconCache::new(), cache_dir };
        assert(views(r.pending@) =~= Seq::empty());
        assert(views(r.history@) =~= Seq::empty());
        r
    }

    /// The history, newest first.
    pub fn snapshot(&self) -> (r: Vec<Notification>)
        ensures
            views(r@) == self@.history.reverse(),
    {
        let n = self.history.len();
        let mut r: Vec<Notification> = Vec::new();
        let mut k: usize = 0;
        while k < n
            invariant
                n == self.history@.len(),
                k <= n,
                r@.len() == k,
                forall|j: int| 0 <= j < k ==> (#[trigger] r@[j])@ == self.history@[n - 1 - j]@,
            decreases n - k,
        {
            r.push(self.history[n - 1 - k].duplicate());
            k = k + 1;
        }
        assert(views(r@) =~= self@.history.reverse());
        r
    }

    /// The pending records, in order of creation.
    pub fn pending(&self) -> (r: Vec<Notification>)
        ensures
            views(r@) == self@.pending,
    {
        let mut r: Vec<Notification> = Vec::new();
        let mut k: usize = 0;
        while k < self.pending.len()
            invariant
                k <= self.pending@.len(),
                r@.len() == k,
                forall|j: int| 0 <= j < k ==> (#[trigger] r@[j])@ == self.pending@[j]@,
            decreases self.pending@.len() - k,
        {
            r.push(self.pending[k].duplicate());
            k = k + 1;
        }
        assert(views(r@) =~= self@.pending);
        r
    }

    /// How many records reference the cached icon at `path` (0 if none).
    pub fn icon_references(&self, path: &String) -> (r: u64)
        requires
            self.wf(),
        ensures
            self@.cache.contains_key(path@) ==> r as nat == self@.cache[path@],
            !self@.cache.contains_key(path@) ==> r == 0,
    {
        self.cache.count(path)
    }

    fn on_create(&mut self, ev: CreateEvent) -> (r: (Option<IconWrite>, Option<EngineError>))
        requires
            old(self).wf(),
        ensures
            final(self).wf(),
            final(self)@ == after_create(old(self)@, ev),
            r.1 == error_of(old(self)@, Event::Create(ev)),
            r.0 is Some <==> asks_write(old(self)@, Event::Create(ev)),
            r.0 matches Some(w) ==> writes(old(self)@, Event::Create(ev), w),
    {
        let ghost s = self@;
        let ghost e = ev;
        match ev.serial {
            None => (None, Some(EngineError::MissingSerial)),
            Some(serial) => {
                let CreateEvent { serial: _, appname, summary, body, icon, urgency } = ev;
                let (icon_ref, write) = match icon {
                    IconInput::Resolved(p) => (p, None),
                    IconInput::Raw(img) => {
                        let path = icon_path(&self.cache_dir, &img.data);
                        if self.cache.count(&path) == u64::MAX {
                            (String::new(), None)
                        } else {
                            let is_new = self.cache.store(path.clone());
                            if is_new {
                                (path.clone(), Some(IconWrite { serial, path, image: img }))
                            } else {
                                (path, None)
                            }
                        }
                    },
                };
                let rec = new_record(appname, summary, body, urgency, serial, icon_ref);
                let ghost old_pending = self.pending@;
                self.pending.push(rec);
                assert(rec@ == created_record(e, serial, create_icon(s, e.icon)));
                assert(views(self.pending@) =~= views(old_pending).push(rec@));
                (write, None)
            },
        }
    }

    fn on_return(&mut self, reply_serial: u32, id: u32)
        requires
            old(self).wf(),
        ensures
            final(self).wf(),
            final(self)@ == after_return(old(self)@, reply_serial, id),
    {
        match find_serial(&self.pending, reply_serial) {
            Some(i) => {
                let old_rec = &self.pending[i];
                let rec = Notification {
                    serial: old_rec.serial,
                    appname: old_rec.appname.clone(),
                    summary: old_rec.summary.clone(),
                    body: old_rec.body.clone(),
                    icon: old_rec.icon.clone(),
                    urgency: old_rec.urgency,
                    id,
                };
                let ghost old_pending = self.pending@;
                self.pending.set(i, rec);
                assert(views(self.pending@) =~= views(old_pending).update(i as int, with_id(views(old_pending)[i as int], id)));
            },
            None => {},
        }
    }

    fn on_close(&mut self, id: u32) -> (emitted: bool)
        requires
            old(self).wf(),
        ensures
            final(self).wf(),
            final(self)@ == after_close(old(self)@, id),
            emitted == emits(old(self)@, Event::Closed { id }),
    {
        if id == 0 {
            return false;
        }
        match find_id(&self.pending, id) {
            None => false,
            Some(i) => {
                let ghost old_history = self.history@;
                let ghost old_pending = self.pending@;
                if self.history.len() >= self.capacity {
                    self.history.remove(0);
                    assert(views(self.history@) =~= views(old_history).drop_first());
                }
                let ghost kept = self.history@;
                let rec = self.pending.remove(i);
                self.history.push(rec);
                assert(views(self.pending@) =~= views(old_pending).remove(i as int));
                assert(views(self.history@) =~= views(kept).push(rec@));
                true
            },
        }
    }

    fn on_remove(&mut self, id: u32) -> (r: Result<Option<String>, EngineError>)
        requires
            old(self).wf(),
        ensures
            final(self).wf(),
            final(self)@ == after_remove(old(self)@, id),
            r is Err <==> first_id(old(self)@.history, id) < 0,
            r matches Err(e) ==> e == EngineError::UnknownHistoryId(id),
            r matches Ok(d) ==> (d is Some <==> release_deletes(old(self)@.cache, old(self)@.history[first_id(old(self)@.history, id)].icon)),
            r matches Ok(Some(p)) ==> p@ == old(self)@.history[first_id(old(self)@.history, id)].icon,
    {
        match find_id(&self.history, id) {
            None => Err(EngineError::UnknownHistoryId(id)),
            Some(i) => {
                let ghost old_history = self.history@;
                let rec = self.history.remove(i);
                assert(views(self.history@) =~= views(old_history).remove(i as int));
                let delete = self.cache.release(&rec.icon);
                if delete {
                    Ok(Some(rec.icon))
                } else {
                    Ok(None)
                }
            },
        }
    }

    fn on_clear(&mut self) -> (paths: Vec<String>)
        requires
            old(self).wf(),
        ensures
            final(self).wf(),
            final(self)@ == after_clear(old(self)@),
            forall|p: Seq<char>|
                old(self)@.cache.contains_key(p) <==> exists|i: int|
                    0 <= i < paths@.len() && (#[trigger] paths@[i])@ == p,
    {
        self.pending.clear();
        self.history.clear();
        let paths = self.cache.clear();
        assert(views(self.pending@) =~= Seq::empty());
        assert(views(self.history@) =~= Seq::empty());
        paths
    }

    fn on_icon_failure(&mut self, serial: u32, path: String) -> (delete: Option<String>)
        requires
            old(self).wf(),
        ensures
            final(self).wf(),
            final(self)@ == after_icon_failure(old(self)@, serial, path@),
            forall|p: Seq<char>| deletes(old(self)@, Event::IconWriteFailed { serial, path }, p) <==> (delete matches Some(d) && d@ == p),
    {
        match find_serial(&self.pending, serial) {
            Some(i) => {
                if self.pending[i].icon == path {
                    let old_rec = &self.pending[i];
                    let rec = Notification {
                        serial: old_rec.serial,
                        appname: old_rec.appname.clone(),
                        summary: old_rec.summary.clone(),
                        body: old_rec.body.clone(),
                        icon: String::new(),
                        urgency: old_rec.urgency,
                        id: old_rec.id,
                    };
                    let ghost old_pending = self.pending@;
                    self.pending.set(i, rec);
                    assert(views(self.pending@) =~= views(old_pending).update(i as int, without_icon(views(old_pending)[i as int])));
                    let delete = self.cache.release(&path);
                    if delete {
                        Some(path)
                    } else {
                        None
                    }
                } else {
                    None
                }
            },
            None => None,
        }
    }

    /// Applies one event and says what the caller has to carry out.
    pub fn handle(&mut self, e: Event) -> (o: Outcome)
        requires
            old(self).wf(),
        ensures
            final(self).wf(),
            final(self)@ == step(old(self)@, e),
            o.snapshot is Some <==> emits(old(self)@, e),
            o.snapshot matches Some(v) ==> views(v@) == final(self)@.history.reverse(),
            o.error == error_of(old(self)@, e),
            o.write_icon is Some <==> asks_write(old(self)@, e),
            o.write_icon matches Some(w) ==> writes(old(self)@, e, w),
            forall|p: Seq<char>|
                deletes(old(self)@, e, p) <==> exists|i: int|
                    0 <= i < o.delete_files@.len() && (#[trigger] o.delete_files@[i])@ == p,
    {
        let ghost e0 = e;
        let ghost s0 = self@;
        let mut o = Outcome { snapshot: None, write_icon: None, delete_files: Vec::new(), error: None };
        match e {
            Event::Create(ev) => {
                let (w, err) = self.on_create(ev);
                o.write_icon = w;
                o.error = err;
            },
            Event::Return { reply_serial, id } => {
                self.on_return(reply_serial, id);
            },
            Event::Closed { id } => {
                if self.on_close(id) {
                    o.snapshot = Some(self.snapshot());
                }
            },
            Event::RemoveFromHistory { id } => {
                match self.on_remove(id) {
                    Err(err) => {
                        o.error = Some(err);
                    },
                    Ok(d) => {
                        if let Some(p) = d {
                            o.delete_files.push(p);
                            assert(o.delete_files@[0] == p);
                        }
                        o.snapshot = Some(self.snapshot());

                        assert forall|p: Seq<char>|
                            deletes(s0, e0, p) <==> exists|i: int|
                                0 <= i < o.delete_files@.len() && (#[trigger] o.delete_files@[i])@ == p by {
                            if o.delete_files@.len() > 0 { assert(o.delete_files@[0]@ == p ==> deletes(s0, e0, p)); }
                        }
                    },
                }
            },
            Event::ClearHistory => {
                let paths = self.on_clear();
                assert(forall|p: Seq<char>|
                    s0.cache.contains_key(p) <==> exists|i: int|
                        0 <= i < paths@.len() && (#[trigger] paths@[i])@ == p);
                let ghost gp = paths@;
                o.delete_files = paths;
                o.snapshot = Some(self.snapshot());
                assert forall|p: Seq<char>|
                    deletes(s0, e0, p) <==> exists|i: int|
                        0 <= i < o.delete_files@.len() && (#[trigger] o.delete_files@[i])@ == p by {
                    assert(e0 == Event::ClearHistory);
                    assert(deletes(s0, e0, p) == s0.cache.contains_key(p));
                    assert(o.delete_files@ == gp);
                    if s0.cache.contains_key(p) {
                        let k = choose|k: int| 0 <= k < gp.len() && (#[trigger] gp[k])@ == p;
                        assert(o.delete_files@[k]@ == p);
                    }
                }
            },
            Event::IconWriteFailed { serial, path } => {
                assert(e0 == Event::IconWriteFailed { serial, path });
                if let Some(p) = self.on_icon_failure(serial, path) {
                    o.delete_files.push(p);
                    assert(o.delete_files@[0] == p);
                }
                assert forall|p: Seq<char>|
                    deletes(s0, e0, p) <==> exists|i: int|
                        0 <= i < o.delete_files@.len() && (#[trigger] o.delete_files@[i])@ == p by {
                }
            },
            Event::Other => {},
        }
        o
    }
}

} // verus!
