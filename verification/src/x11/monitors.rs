//! Monitors as RandR reports them, and their left-to-right order.

use vstd::prelude::*;

verus! {

/// Represents a connected monitor/output
#[derive(Debug, Clone)]
pub struct Monitor {
    /// Output name (e.g., "DP-1", "HDMI-1")
    pub name: String,
    /// X position
    pub x: i16,
    /// Y position
    pub y: i16,
    /// Width in pixels
    pub width: u16,
    /// Height in pixels
    pub height: u16,
    /// Whether this is the primary monitor
    pub primary: bool,
}

/// `m` sorted by x with a stable insertion: inserted after every monitor whose x is not larger.
pub open spec fn insert_by_x(sorted: Seq<Monitor>, m: Monitor) -> Seq<Monitor>
    decreases sorted.len(),
{
    if sorted.len() == 0 || sorted.last().x <= m.x {
        sorted.push(m)
    } else {
        insert_by_x(sorted.drop_last(), m).push(sorted.last())
    }
}

/// The monitors ordered by x position, keeping the order of monitors with equal x
/// (what a stable sort by x gives).
pub open spec fn sort_by_x(ms: Seq<Monitor>) -> Seq<Monitor>
    decreases ms.len(),
{
    if ms.len() == 0 {
        ms
    } else {
        insert_by_x(sort_by_x(ms.drop_last()), ms.last())
    }
}

/// Monitors in non-decreasing x order.
pub open spec fn sorted_by_x(ms: Seq<Monitor>) -> bool {
    forall|i: int, j: int| 0 <= i <= j < ms.len() ==> ms[i].x <= ms[j].x
}

proof fn lemma_insert_by_x(sorted: Seq<Monitor>, m: Monitor)
    requires
        sorted_by_x(sorted),
    ensures
        sorted_by_x(insert_by_x(sorted, m)),
        insert_by_x(sorted, m).len() == sorted.len() + 1,
        insert_by_x(sorted, m).to_multiset() == sorted.to_multiset().insert(m),
    decreases sorted.len(),
{
    broadcast use vstd::seq_lib::group_seq_properties;
    sorted.to_multiset_ensures();
    if sorted.len() == 0 || sorted.last().x <= m.x {
    } else {
        let rest = sorted.drop_last();
        assert(sorted_by_x(rest));
        lemma_insert_by_x(rest, m);
        let ins = insert_by_x(rest, m);
        ins.to_multiset_ensures();
        rest.to_multiset_ensures();
        assert(sorted == rest.push(sorted.last()));
        assert forall|k: int| 0 <= k < ins.len() implies ins[k].x <= sorted.last().x by {
            assert(ins.to_multiset().count(ins[k]) > 0);
            if ins[k] == m {
            } else {
                assert(rest.to_multiset().count(ins[k]) > 0);
                let kk = choose|kk: int| 0 <= kk < rest.len() && rest[kk] == ins[k];
                assert(rest[kk] == sorted[kk]);
            }
        }
    }
}

/// Sorting by x orders the monitors and keeps each of them, as many times.
pub proof fn law_sort_by_x(ms: Seq<Monitor>)
    ensures
        sorted_by_x(sort_by_x(ms)),
        sort_by_x(ms).to_multiset() == ms.to_multiset(),
    decreases ms.len(),
{
    broadcast use vstd::seq_lib::group_seq_properties;
    if ms.len() > 0 {
        law_sort_by_x(ms.drop_last());
        lemma_insert_by_x(sort_by_x(ms.drop_last()), ms.last());
        ms.to_multiset_ensures();
        ms.drop_last().to_multiset_ensures();
        assert(ms == ms.drop_last().push(ms.last()));
    }
}

/// Where `m` goes when inserted into `sorted`: after the last monitor whose x is not larger.
fn insert_position(sorted: &Vec<Monitor>, m: &Monitor) -> (p: usize)
    ensures
        p <= sorted@.len(),
        insert_by_x(sorted@, *m) == sorted@.take(p as int).push(*m) + sorted@.skip(p as int),
{
    let mut p = sorted.len();
    proof {
        assert(sorted@.take(p as int) == sorted@);
        assert(sorted@.skip(p as int) == Seq::<Monitor>::empty());
        assert(insert_by_x(sorted@, *m) + Seq::<Monitor>::empty() == insert_by_x(sorted@, *m));
    }
    while p > 0 && sorted[p - 1].x > m.x
        invariant
            p <= sorted@.len(),
            insert_by_x(sorted@, *m) == insert_by_x(sorted@.take(p as int), *m) + sorted@.skip(
                p as int,
            ),
        decreases p,
    {
        proof {
            let t = sorted@.take(p as int);
            assert(t.drop_last() == sorted@.take(p - 1));
            assert(t.last() == sorted@[p - 1]);
            assert(sorted@.skip(p - 1) == seq![sorted@[p - 1]] + sorted@.skip(p as int));
            assert(insert_by_x(t, *m) == insert_by_x(t.drop_last(), *m).push(t.last()));
            assert(insert_by_x(sorted@.take(p - 1), *m).push(sorted@[p - 1]) + sorted@.skip(
                p as int,
            ) == insert_by_x(sorted@.take(p - 1), *m) + sorted@.skip(p - 1));
        }
        p = p - 1;
    }
    proof {
        let t = sorted@.take(p as int);
        assert(insert_by_x(t, *m) == t.push(*m));
    }
    p
}

/// What RandR reported for one output: its id and name, whether it is connected, its CRTC
/// (0 for none), and the CRTC's position and size (x, y, width, height) where the CRTC was
/// asked for and answered.
#[derive(Debug, Clone)]
pub struct OutputReport {
    pub output: u32,
    pub name: String,
    pub connected: bool,
    pub crtc: u32,
    pub geometry: Option<(i16, i16, u16, u16)>,
}

/// What RandR reported for the screen: the primary output, and for each output in server
/// order its report, or nothing where asking about the output failed.
#[derive(Debug, Clone)]
pub struct ScreenReport {
    pub primary: u32,
    pub outputs: Vec<Option<OutputReport>>,
}

/// An output drives a monitor when it is connected and has a CRTC.
pub open spec fn output_active(connected: bool, crtc: u32) -> bool {
    connected && crtc != 0
}

/// The monitor an output report gives: an active output whose CRTC geometry is known,
/// primary when it is the primary output.
pub open spec fn monitor_of(o: Option<OutputReport>, primary: u32) -> Option<Monitor> {
    match o {
        Some(r) => if output_active(r.connected, r.crtc) {
            match r.geometry {
                Some((x, y, w, h)) => Some(Monitor { name: r.name, x, y, width: w, height: h, primary: r.output == primary }),
                None => None,
            }
        } else {
            None
        },
        None => None,
    }
}

/// The monitors the outputs give, in server order; outputs that give none are skipped.
pub open spec fn found_monitors(os: Seq<Option<OutputReport>>, primary: u32) -> Seq<Monitor>
    decreases os.len(),
{
    if os.len() == 0 {
        Seq::empty()
    } else {
        let rest = found_monitors(os.drop_last(), primary);
        match monitor_of(os.last(), primary) {
            Some(m) => rest.push(m),
            None => rest,
        }
    }
}

/// The fallback monitor: named "default", at the origin, primary, of the given size.
pub open spec fn is_default_monitor(m: Monitor, width: u16, height: u16) -> bool {
    &&& m.name@ == "default"@
    &&& m.x == 0
    &&& m.y == 0
    &&& m.width == width
    &&& m.height == height
    &&& m.primary
}

/// Orders monitors left to right by x position; monitors at the same x keep their order.
fn sort_monitors(found: Vec<Monitor>) -> (r: Vec<Monitor>)
    ensures
        r@ == sort_by_x(found@),
{
    let ghost orig = found@;
    let n = found.len();
    assert(orig.len() == n);
    let mut rest = found;
    let mut sorted: Vec<Monitor> = Vec::new();
    let mut i: usize = 0;
    while rest.len() > 0
        invariant
            i <= orig.len() <= usize::MAX,
            rest@ == orig.skip(i as int),
            rest@.len() == orig.len() - i,
            sorted@ == sort_by_x(orig.take(i as int)),
        decreases rest.len(),
    {
        let m = rest.remove(0);
        proof {
            let t = orig.take(i + 1);
            assert(t.drop_last() == orig.take(i as int));
            assert(t.last() == m);
            assert(rest@ == orig.skip(i + 1));
        }
        let p = insert_position(&sorted, &m);
        sorted.insert(p, m);
        i = i + 1;
    }
    proof {
        assert(orig.take(i as int) == orig);
    }
    sorted
}

impl Monitor {
    /// Whether an output drives a monitor, so that its CRTC is asked for: it is connected
    /// and has a CRTC.
    pub fn is_active_output(connected: bool, crtc: u32) -> (r: bool)
        ensures
            r == output_active(connected, crtc),
    {
        connected && crtc != 0
    }

    /// Get all connected monitors from what RandR reported: one per connected output with
    /// a CRTC whose geometry is known, primary when it is the primary output, ordered left
    /// to right by x (monitors at the same x keep server order). An output that could not
    /// be asked about is skipped; a failure to ask about the screen is the error.
    pub fn get_all(report: Result<ScreenReport, String>) -> (r: Result<Vec<Monitor>, String>)
        ensures
            match report {
                Ok(s) => r matches Ok(v) && v@ == sort_by_x(found_monitors(s.outputs@, s.primary)),
                Err(e) => r matches Err(m) && m@ == e@,
            },
    {
        let screen = match report {
            Ok(s) => s,
            Err(e) => return Err(e),
        };
        let outputs = &screen.outputs;
        let mut found: Vec<Monitor> = Vec::new();
        let mut i: usize = 0;
        while i < outputs.len()
            invariant
                i <= outputs@.len(),
                found@ == found_monitors(outputs@.take(i as int), screen.primary),
            decreases outputs.len() - i,
        {
            proof {
                let t = outputs@.take(i + 1);
                assert(t.drop_last() == outputs@.take(i as int));
                assert(t.last() == outputs@[i as int]);
            }
            match &outputs[i] {
                Some(o) => {
                    if Monitor::is_active_output(o.connected, o.crtc) {
                        match o.geometry {
                            Some((x, y, w, h)) => {
                                found.push(Monitor { name: o.name.clone(), x, y, width: w, height: h, primary: o.output == screen.primary });
                            },
                            None => {},
                        }
                    }
                },
                None => {},
            }
            i = i + 1;
        }
        proof {
            assert(outputs@.take(outputs@.len() as int) == outputs@);
        }
        Ok(sort_monitors(found))
    }

    /// The monitors to report: those found, or where there are none, one default monitor
    /// covering the screen. `screen` is the screen's size, or nothing without an X
    /// connection, where the default is 1920x1080; `found` is what RandR gave, or nothing
    /// where it failed.
    pub fn monitors_or_fallback(found: Option<Vec<Monitor>>, screen: Option<(u16, u16)>) -> (r: Vec<Monitor>)
        ensures
            match screen {
                None => r@.len() == 1 && is_default_monitor(r@[0], 1920, 1080),
                Some((w, h)) => match found {
                    Some(v) => if v@.len() > 0 {
                        r@ == v@
                    } else {
                        r@.len() == 1 && is_default_monitor(r@[0], w, h)
                    },
                    None => r@.len() == 1 && is_default_monitor(r@[0], w, h),
                },
            },
    {
        let (w, h) = match screen {
            None => (1920u16, 1080u16),
            Some((w, h)) => {
                match found {
                    Some(v) => {
                        if v.len() > 0 {
                            return v;
                        }
                    },
                    None => {},
                }
                (w, h)
            },
        };
        let name = crate::text::str_to_string("default");
        proof {
            reveal_strlit("default");
        }
        let mut r: Vec<Monitor> = Vec::new();
        r.push(Monitor { name, x: 0, y: 0, width: w, height: h, primary: true });
        r
    }
}

} // verus!
