//! The route reference resolver: a pass over the export document that links
//! each recording file a workout references to that workout's identity.
//!
//! A workout's references are kept pending and committed when the workout
//! closes, so resolution only ever uses workouts that fully closed.

use vstd::prelude::*;
use crate::export::closes_no_workout;
use crate::rows::{workout_hash, workout_identity};
use crate::text::same_text;
use crate::xml::{attr_of, attr_value, opt_view, Element, XmlEvent};

verus! {

/// A recording file's declared path, and the workout that references it.
pub struct RouteLink {
    pub path: String,
    pub workout_hash: String,
}

pub struct LinkView {
    pub path: Seq<char>,
    pub workout_hash: Seq<char>,
}

impl View for RouteLink {
    type V = LinkView;

    open spec fn view(&self) -> LinkView {
        LinkView { path: self.path@, workout_hash: self.workout_hash@ }
    }
}

pub open spec fn link_views(s: Seq<RouteLink>) -> Seq<LinkView> {
    Seq::new(s.len(), |i: int| s[i]@)
}

/// The workout linked to `path`; a later link replaces an earlier one.
pub open spec fn route_lookup(links: Seq<LinkView>, path: Seq<char>) -> Option<Seq<char>>
    decreases links.len(),
{
    if links.len() == 0 {
        None
    } else if links.last().path == path {
        Some(links.last().workout_hash)
    } else {
        route_lookup(links.drop_last(), path)
    }
}

pub struct RouteScan {
    pub in_workout: bool,
    pub workout: Option<Seq<char>>,
    pub pending: Seq<LinkView>,
    pub links: Seq<LinkView>,
}

pub open spec fn initial_scan() -> RouteScan {
    RouteScan { in_workout: false, workout: None, pending: Seq::empty(), links: Seq::empty() }
}

pub open spec fn scan_open(st: RouteScan, e: Element) -> RouteScan {
    if e.name@ == "Workout"@ {
        RouteScan {
            in_workout: true,
            workout: Some(workout_identity(e.attributes@)),
            pending: Seq::empty(),
            ..st
        }
    } else if e.name@ == "FileReference"@ && st.in_workout && st.workout is Some && attr_of(
        e.attributes@,
        "path"@,
    ) is Some {
        RouteScan {
            pending: st.pending.push(
                LinkView {
                    path: attr_of(e.attributes@, "path"@)->0,
                    workout_hash: st.workout->0,
                },
            ),
            ..st
        }
    } else {
        st
    }
}

/// Closing a workout commits its pending links.
pub open spec fn scan_close(st: RouteScan, name: Seq<char>) -> RouteScan {
    if name == "Workout"@ {
        RouteScan {
            in_workout: false,
            workout: None,
            pending: Seq::empty(),
            links: st.links + st.pending,
        }
    } else {
        st
    }
}

/// The effect of one structural event on the scan; a self-closing tag opens
/// and closes its element at once.
pub open spec fn scan_step(st: RouteScan, ev: XmlEvent) -> RouteScan {
    match ev {
        XmlEvent::Start(e) => scan_open(st, e),
        XmlEvent::Empty(e) => scan_close(scan_open(st, e), e.name@),
        XmlEvent::End(name) => scan_close(st, name@),
        _ => st,
    }
}

pub open spec fn scan_run(st: RouteScan, evs: Seq<XmlEvent>) -> RouteScan
    decreases evs.len(),
{
    if evs.len() == 0 {
        st
    } else {
        scan_step(scan_run(st, evs.drop_last()), evs.last())
    }
}

/// The links from recording-file paths to workout identities.
pub struct RouteMap {
    links: Vec<RouteLink>,
}

impl RouteMap {
    pub closed spec fn links(&self) -> Seq<LinkView> {
        link_views(self.links@)
    }

    /// A map with no links.
    pub fn new() -> (r: RouteMap)
        ensures
            r.links() == Seq::<LinkView>::empty(),
    {
        let r = RouteMap { links: Vec::new() };
        assert(r.links() =~= Seq::<LinkView>::empty());
        r
    }

    /// The number of links.
    pub fn len(&self) -> (r: usize)
        ensures
            r == self.links().len(),
    {
        self.links.len()
    }

    /// The identity of the workout that references `path`.
    pub fn workout_for(&self, path: &str) -> (r: Option<String>)
        ensures
            opt_view(r) == route_lookup(self.links(), path@),
    {
        let mut i: usize = self.links.len();
        assert(self.links().subrange(0, i as int) =~= self.links());
        while i > 0
            invariant
                i <= self.links@.len(),
                route_lookup(self.links(), path@) == route_lookup(
                    self.links().subrange(0, i as int),
                    path@,
                ),
            decreases i,
        {
            proof {
                assert(self.links().subrange(0, i as int).drop_last() =~= self.links().subrange(
                    0,
                    i - 1,
                ));
            }
            let link = &self.links[i - 1];
            if same_text(link.path.as_str(), path) {
                return Some(link.workout_hash.clone());
            }
            i = i - 1;
        }
        None
    }

    /// The identity of the workout whose route is the track file `file_name`
    /// of the routes directory (declared as `/workout-routes/<file_name>`).
    pub fn workout_for_file(&self, file_name: &str) -> (r: Option<String>)
        ensures
            opt_view(r) == route_lookup(self.links(), "/workout-routes/"@ + file_name@),
    {
        let mut key = String::from_str("/workout-routes/");
        key.append(file_name);
        self.workout_for(key.as_str())
    }
}

/// The streaming route resolver.
pub struct RouteResolver {
    in_workout: bool,
    current_workout: Option<String>,
    pending: Vec<RouteLink>,
    map: RouteMap,
}

impl RouteResolver {
    pub closed spec fn scan(&self) -> RouteScan {
        RouteScan {
            in_workout: self.in_workout,
            workout: opt_view(self.current_workout),
            pending: link_views(self.pending@),
            links: self.map.links(),
        }
    }

    pub fn new() -> (r: RouteResolver)
        ensures
            r.scan() == initial_scan(),
    {
        let r = RouteResolver {
            in_workout: false,
            current_workout: None,
            pending: Vec::new(),
            map: RouteMap::new(),
        };
        assert(r.scan().pending =~= Seq::<LinkView>::empty());
        r
    }

    fn open(&mut self, e: &Element)
        ensures
            final(self).scan() == scan_open(old(self).scan(), *e),
    {
        let ghost st = self.scan();
        if same_text(e.name.as_str(), "Workout") {
            self.in_workout = true;
            self.current_workout = Some(workout_hash(e));
            self.pending = Vec::new();
            assert(self.scan().pending =~= Seq::<LinkView>::empty());
        } else if same_text(e.name.as_str(), "FileReference") && self.in_workout {
            match (&self.current_workout, attr_value(e, "path")) {
                (Some(w), Some(path)) => {
                    let link = RouteLink { path, workout_hash: w.clone() };
                    self.pending.push(link);
                    assert(self.scan().pending =~= st.pending.push(link@));
                },
                _ => {},
            }
        }
        assert(self.scan() =~= scan_open(st, *e));
    }

    fn close(&mut self, name: &String)
        ensures
            final(self).scan() == scan_close(old(self).scan(), name@),
    {
        let ghost st = self.scan();
        if same_text(name.as_str(), "Workout") {
            self.map.links.append(&mut self.pending);
            self.in_workout = false;
            self.current_workout = None;
            assert(self.scan().pending =~= Seq::<LinkView>::empty());
            assert(self.scan().links =~= st.links + st.pending);
        }
    }

    /// Takes in one structural event of the document.
    pub fn step(&mut self, ev: &XmlEvent)
        ensures
            final(self).scan() == scan_step(old(self).scan(), *ev),
    {
        match ev {
            XmlEvent::Start(e) => self.open(e),
            XmlEvent::Empty(e) => {
                self.open(e);
                self.close(&e.name);
            },
            XmlEvent::End(name) => self.close(name),
            _ => {},
        }
    }

    /// The links committed so far.
    pub fn into_map(self) -> (r: RouteMap)
        ensures
            r.links() == self.scan().links,
    {
        self.map
    }
}

/// The route links of a whole document given as its structural events.
pub fn resolve_routes(events: &Vec<XmlEvent>) -> (r: RouteMap)
    ensures
        r.links() == scan_run(initial_scan(), events@).links,
{
    let mut resolver = RouteResolver::new();
    let mut i: usize = 0;
    while i < events.len()
        invariant
            i <= events@.len(),
            resolver.scan() == scan_run(initial_scan(), events@.subrange(0, i as int)),
        decreases events@.len() - i,
    {
        proof {
            assert(events@.subrange(0, i + 1).drop_last() =~= events@.subrange(0, i as int));
        }
        resolver.step(&events[i]);
        i = i + 1;
    }
    assert(events@.subrange(0, events@.len() as int) =~= events@);
    resolver.into_map()
}

/// A workout that references a file and then closes links that file's path
/// to the workout's identity, the same identity its workout row carries.
pub proof fn lemma_closed_workout_links_route(st: RouteScan, workout: Element, reference: Element, path: Seq<char>)
    requires
        workout.name@ == "Workout"@,
        reference.name@ == "FileReference"@,
        attr_of(reference.attributes@, "path"@) == Some(path),
    ensures
        route_lookup(
            scan_run(
                st,
                seq![XmlEvent::Start(workout), XmlEvent::Empty(reference), XmlEvent::End(workout.name)],
            ).links,
            path,
        ) == Some(workout_identity(workout.attributes@)),
{
    reveal_strlit("Workout");
    reveal_strlit("FileReference");
    assert("Workout"@.len() == 7 && "FileReference"@.len() == 13);
    let evs = seq![XmlEvent::Start(workout), XmlEvent::Empty(reference), XmlEvent::End(workout.name)];
    let s1 = scan_step(st, XmlEvent::Start(workout));
    let s2 = scan_step(s1, XmlEvent::Empty(reference));
    let s3 = scan_step(s2, XmlEvent::End(workout.name));
    assert(evs.drop_last().drop_last().drop_last() =~= Seq::<XmlEvent>::empty());
    assert(evs.drop_last().drop_last().last() == XmlEvent::Start(workout));
    assert(evs.drop_last().last() == XmlEvent::Empty(reference));
    assert(scan_run(st, evs.drop_last().drop_last().drop_last()) == st);
    assert(scan_run(st, evs.drop_last().drop_last()) == s1);
    assert(scan_run(st, evs.drop_last()) == s2);
    assert(scan_run(st, evs) == s3);
    assert(s2.pending.len() == 1);
    assert(s3.links.last() == s2.pending[0]);
}

/// Events that never close a workout add no link: a reference is resolved
/// only once its workout has fully closed.
pub proof fn lemma_unclosed_workout_links_nothing(st: RouteScan, evs: Seq<XmlEvent>)
    requires
        forall|i: int| 0 <= i < evs.len() ==> #[trigger] closes_no_workout(evs[i]),
    ensures
        scan_run(st, evs).links == st.links,
    decreases evs.len(),
{
    if evs.len() > 0 {
        assert forall|i: int| 0 <= i < evs.drop_last().len() implies #[trigger] closes_no_workout(
            evs.drop_last()[i],
        ) by {
            assert(evs.drop_last()[i] == evs[i]);
        }
        lemma_unclosed_workout_links_nothing(st, evs.drop_last());
        assert(evs[evs.len() - 1] == evs.last());
        let prev = scan_run(st, evs.drop_last());
        assert(closes_no_workout(evs[evs.len() - 1]));
        assert(scan_run(st, evs) == scan_step(prev, evs.last()));
        match evs.last() {
            XmlEvent::Empty(e) => {
                assert(scan_open(prev, e).links == prev.links);
            },
            _ => {},
        }
    }
}

} // verus!
