//! Identity of wheel devices and the choice of the device whose wheel is
//! converted.
use crate::text::{
    chars_equal, chars_of, contains_chars, find_chars, first_occurrence_at, lowercase, lowercase_of,
    matches_at, occurs_at, starts_with,
};
use vstd::prelude::*;
use vstd::string::StrSliceExecFns;

verus! {

/// The text that separates a USB device from its interface in a physical path.
pub open spec fn input_marker() -> Seq<char> {
    seq!['/', 'i', 'n', 'p', 'u', 't']
}

/// The prefix of the physical path of a USB device.
pub open spec fn usb_prefix() -> Seq<char> {
    seq!['u', 's', 'b', '-']
}

/// The USB device that a physical path belongs to: the part before the first
/// `/input`, when there is one and it starts with `usb-`.
pub open spec fn usb_source_of(phys: Seq<char>) -> Option<Seq<char>> {
    if exists|k: int| first_occurrence_at(phys, input_marker(), k) {
        let k = choose|k: int| first_occurrence_at(phys, input_marker(), k);
        let device = phys.subrange(0, k);
        if starts_with(device, usb_prefix()) {
            Some(device)
        } else {
            None
        }
    } else {
        None
    }
}

/// The USB device of a physical input path, so that the interfaces of one
/// receiver are grouped together while different ports stay apart.
pub fn usb_source(phys: &str) -> (r: Option<String>)
    ensures
        match r {
            Some(s) => usb_source_of(phys@) == Some(s@),
            None => usb_source_of(phys@) is None,
        },
{
    let chars = chars_of(phys);
    let marker = vec!['/', 'i', 'n', 'p', 'u', 't'];
    let prefix = vec!['u', 's', 'b', '-'];
    assert(marker@ =~= input_marker());
    assert(prefix@ =~= usb_prefix());
    let n = chars.len();
    let mut k: usize = 0;
    while k < n
        invariant
            chars@ == phys@,
            n == chars@.len(),
            marker@ == input_marker(),
            prefix@ == usb_prefix(),
            k <= n,
            forall|j: int| 0 <= j < k ==> !occurs_at(phys@, input_marker(), j),
        decreases n - k,
    {
        if matches_at(&chars, &marker, k) {
            assert(first_occurrence_at(phys@, input_marker(), k as int));
            let ghost chosen = choose|j: int| first_occurrence_at(phys@, input_marker(), j);
            assert(chosen == k as int) by {
                if chosen < k {
                } else if chosen > k {
                    assert(!occurs_at(phys@, input_marker(), k as int));
                }
            }
            if k >= 4 && matches_at(&chars, &prefix, 0) {
                assert(phys@.subrange(0, k as int).subrange(0, 4) =~= phys@.subrange(0, 4));
                let device = phys.substring_char(0, k);
                return Some(device.to_owned());
            } else {
                assert(k >= 4 ==> phys@.subrange(0, k as int).subrange(0, 4) =~= phys@.subrange(
                    0,
                    4,
                ));
                return None;
            }
        }
        k = k + 1;
    }
    assert(!exists|j: int| first_occurrence_at(phys@, input_marker(), j));
    None
}


/// The interfaces of one receiver share their USB device: two physical
/// paths that agree up to their first `/input` have the same USB device.
pub proof fn lemma_interfaces_share_usb_source(a: Seq<char>, b: Seq<char>, k: int)
    requires
        first_occurrence_at(a, input_marker(), k),
        first_occurrence_at(b, input_marker(), k),
        a.subrange(0, k) == b.subrange(0, k),
    ensures
        usb_source_of(a) == usb_source_of(b),
{
    let ka = choose|j: int| first_occurrence_at(a, input_marker(), j);
    let kb = choose|j: int| first_occurrence_at(b, input_marker(), j);
    assert(ka == k) by {
        if ka < k {
        } else if ka > k {
            assert(!occurs_at(a, input_marker(), k));
        }
    }
    assert(kb == k) by {
        if kb < k {
        } else if kb > k {
            assert(!occurs_at(b, input_marker(), k));
        }
    }
}

/// Whether a path segment names a component: empty segments (from repeated
/// or trailing slashes) and `.` do not.
pub open spec fn keeps_segment(segment: Seq<char>) -> bool {
    segment.len() > 0 && segment != seq!['.']
}

/// `segments` with `current` appended when it names a component.
pub open spec fn close_segment(segments: Seq<Seq<char>>, current: Seq<char>) -> Seq<Seq<char>> {
    if keeps_segment(current) {
        segments.push(current)
    } else {
        segments
    }
}

/// The components closed so far, and the segment still being read, after
/// reading `s` from left to right.
pub open spec fn scan_segments(s: Seq<char>) -> (Seq<Seq<char>>, Seq<char>)
    decreases s.len(),
{
    if s.len() == 0 {
        (Seq::empty(), Seq::empty())
    } else {
        let (segments, current) = scan_segments(s.drop_last());
        if s.last() == '/' {
            (close_segment(segments, current), Seq::empty())
        } else {
            (segments, current.push(s.last()))
        }
    }
}

/// The named components of a path, as a path's component iterator yields
/// them after its root: separators collapse and `.` components vanish.
pub open spec fn path_components(s: Seq<char>) -> Seq<Seq<char>> {
    close_segment(scan_segments(s).0, scan_segments(s).1)
}

/// The components of the directory under which the kernel places virtual
/// input devices.
pub open spec fn virtual_input_components() -> Seq<Seq<char>> {
    seq![
        seq!['s', 'y', 's'],
        seq!['d', 'e', 'v', 'i', 'c', 'e', 's'],
        seq!['v', 'i', 'r', 't', 'u', 'a', 'l'],
        seq!['i', 'n', 'p', 'u', 't'],
    ]
}

/// Whether an absolute path lies, component by component, under
/// `/sys/devices/virtual/input`.
pub open spec fn is_virtual_input_path(s: Seq<char>) -> bool {
    &&& s.len() > 0
    &&& s[0] == '/'
    &&& path_components(s).len() >= 4
    &&& path_components(s).subrange(0, 4) == virtual_input_components()
}

/// The views of a sequence of character vectors.
pub open spec fn views_of(v: Seq<Vec<char>>) -> Seq<Seq<char>> {
    v.map_values(|c: Vec<char>| c@)
}

fn keeps(segment: &Vec<char>) -> (b: bool)
    ensures
        b == keeps_segment(segment@),
{
    if segment.len() == 0 {
        false
    } else if segment.len() == 1 && segment[0] == '.' {
        assert(segment@ =~= seq!['.']);
        false
    } else {
        assert(segment@ != seq!['.']) by {
            if segment@.len() == 1 {
                assert(segment@[0] != seq!['.'][0]);
            }
        }
        true
    }
}

/// Whether the sysfs path of an input device names a virtual device, which
/// the kernel decides by where it places the device, not by its name or bus.
pub fn virtual_input_path(sysfs_path: &str) -> (b: bool)
    ensures
        b == is_virtual_input_path(sysfs_path@),
{
    let chars = chars_of(sysfs_path);
    let n = chars.len();
    if n == 0 || chars[0] != '/' {
        return false;
    }
    let mut segments: Vec<Vec<char>> = Vec::new();
    let mut current: Vec<char> = Vec::new();
    let mut i: usize = 0;
    while i < n
        invariant
            chars@ == sysfs_path@,
            n == chars@.len(),
            i <= n,
            views_of(segments@) == scan_segments(chars@.subrange(0, i as int)).0,
            current@ == scan_segments(chars@.subrange(0, i as int)).1,
        decreases n - i,
    {
        assert(chars@.subrange(0, i + 1).drop_last() =~= chars@.subrange(0, i as int));
        let c = chars[i];
        if c == '/' {
            if keeps(&current) {
                let ghost before = segments@;
                segments.push(current);
                assert(views_of(segments@) =~= views_of(before).push(current@));
            }
            current = Vec::new();
        } else {
            current.push(c);
        }
        i = i + 1;
    }
    assert(chars@.subrange(0, n as int) =~= chars@);
    if keeps(&current) {
        let ghost before = segments@;
        segments.push(current);
        assert(views_of(segments@) =~= views_of(before).push(current@));
    }
    let ghost components = path_components(sysfs_path@);
    assert(views_of(segments@) == components);
    if segments.len() < 4 {
        return false;
    }
    let expected = vec![
        vec!['s', 'y', 's'],
        vec!['d', 'e', 'v', 'i', 'c', 'e', 's'],
        vec!['v', 'i', 'r', 't', 'u', 'a', 'l'],
        vec!['i', 'n', 'p', 'u', 't'],
    ];
    assert(views_of(expected@) =~= virtual_input_components()) by {
        assert(expected@[0]@ =~= seq!['s', 'y', 's']);
        assert(expected@[1]@ =~= seq!['d', 'e', 'v', 'i', 'c', 'e', 's']);
        assert(expected@[2]@ =~= seq!['v', 'i', 'r', 't', 'u', 'a', 'l']);
        assert(expected@[3]@ =~= seq!['i', 'n', 'p', 'u', 't']);
    }
    let mut j: usize = 0;
    while j < 4
        invariant
            j <= 4,
            segments@.len() >= 4,
            expected@.len() == 4,
            views_of(segments@) == components,
            components == path_components(sysfs_path@),
            views_of(expected@) == virtual_input_components(),
            forall|k: int| 0 <= k < j ==> components[k] == virtual_input_components()[k],
        decreases 4 - j,
    {
        let same = chars_equal(&segments[j], &expected[j]);
        assert(views_of(segments@)[j as int] == segments@[j as int]@);
        assert(views_of(expected@)[j as int] == expected@[j as int]@);
        if !same {
            assert(components.subrange(0, 4)[j as int] != virtual_input_components()[j as int]);
            return false;
        }
        j = j + 1;
    }
    assert(components.subrange(0, 4) =~= virtual_input_components());
    true
}


/// A wheel device that can be captured.
#[derive(Debug, Clone, PartialEq, Eq)]
pub struct Candidate {
    /// Event device node, such as `/dev/input/event4`.
    pub path: String,
    pub name: String,
    pub vendor: u16,
    pub product: u16,
    /// The USB device the node belongs to, for physical devices.
    pub usb_source: Option<String>,
    /// Whether the kernel places the device under the virtual devices.
    pub is_virtual: bool,
}

/// What a scan of the input devices found.
#[derive(Debug, Clone)]
pub struct Discovery {
    /// Wheel devices that are free, in the order of their paths.
    pub available: Vec<Candidate>,
    /// USB devices of wheel devices that another process holds exclusively.
    pub busy_usb_sources: Vec<String>,
    /// How many wheel devices another process holds exclusively.
    pub busy_wheel_count: usize,
}

impl Default for Discovery {
    fn default() -> (d: Self)
        ensures
            d.available@.len() == 0,
            d.busy_usb_sources@.len() == 0,
            d.busy_wheel_count == 0,
    {
        Discovery { available: Vec::new(), busy_usb_sources: Vec::new(), busy_wheel_count: 0 }
    }
}

/// Why no wheel device was chosen.
#[derive(Debug, Clone, PartialEq, Eq)]
pub enum SelectionError {
    /// A free interface of a receiver whose other interface is held by a
    /// remapper, while the remapper's own output has not appeared yet.
    CapturedReceiver,
    /// No device is left to choose from.
    NoSafeDevice,
    /// Several devices are left; their indices into `available`.
    Ambiguous(Vec<usize>),
}

/// The views of the busy USB devices.
pub open spec fn busy_views(d: Discovery) -> Seq<Seq<char>> {
    d.busy_usb_sources@.map_values(|s: String| s@)
}

/// Whether a candidate is a free sibling of a captured interface: it shares
/// its USB device with a wheel device that another process holds.
pub open spec fn is_captured_sibling(c: Candidate, busy: Seq<Seq<char>>) -> bool {
    match c.usb_source {
        Some(source) => busy.contains(source@),
        None => false,
    }
}

/// Indices below `n`, in order, of the candidates that are not captured
/// siblings.
pub open spec fn uncaptured_indices(av: Seq<Candidate>, busy: Seq<Seq<char>>, n: int) -> Seq<usize>
    decreases n,
{
    if n <= 0 {
        Seq::empty()
    } else {
        let before = uncaptured_indices(av, busy, n - 1);
        if is_captured_sibling(av[n - 1], busy) {
            before
        } else {
            before.push((n - 1) as usize)
        }
    }
}

/// The indices among `idx` of physical (not virtual) candidates, in order.
pub open spec fn physical_indices(av: Seq<Candidate>, idx: Seq<usize>) -> Seq<usize>
    decreases idx.len(),
{
    if idx.len() == 0 {
        Seq::empty()
    } else {
        let before = physical_indices(av, idx.drop_last());
        if av[idx.last() as int].is_virtual {
            before
        } else {
            before.push(idx.last())
        }
    }
}

/// The outcome of choosing a wheel device.
pub enum Choice {
    Chosen(usize),
    CapturedReceiver,
    NoSafeDevice,
    Ambiguous(Seq<usize>),
}

/// The indices of the devices left after the rules of the choice: captured
/// siblings are dropped, and when no wheel device is held by another process
/// a physical device is preferred to the virtual outputs.
pub open spec fn remaining_indices(d: Discovery) -> Seq<usize> {
    let av = d.available@;
    let uncaptured = uncaptured_indices(av, busy_views(d), av.len() as int);
    let physical = physical_indices(av, uncaptured);
    if d.busy_wheel_count == 0 && physical.len() > 0 {
        physical
    } else {
        uncaptured
    }
}

/// The wheel device to convert. Without any virtual device, a free interface
/// of a captured receiver blocks the choice: a remapper may create its output
/// only after grabbing the receiver, and the free sibling must never be used
/// in that gap. Otherwise exactly one remaining device is chosen.
pub open spec fn choice(d: Discovery) -> Choice {
    let av = d.available@;
    let has_virtual = exists|i: int| 0 <= i < av.len() && (#[trigger] av[i]).is_virtual;
    let has_sibling = exists|i: int|
        0 <= i < av.len() && is_captured_sibling(#[trigger] av[i], busy_views(d));
    if !has_virtual && has_sibling {
        Choice::CapturedReceiver
    } else {
        let left = remaining_indices(d);
        if left.len() == 1 {
            Choice::Chosen(left[0])
        } else if left.len() == 0 {
            Choice::NoSafeDevice
        } else {
            Choice::Ambiguous(left)
        }
    }
}

/// Every index in `uncaptured_indices` is in range, increasing, and names a
/// candidate that is not a captured sibling; and every such candidate is in it.
proof fn lemma_uncaptured_indices(av: Seq<Candidate>, busy: Seq<Seq<char>>, n: int)
    requires
        0 <= n <= av.len(),
        av.len() <= usize::MAX,
    ensures
        forall|k: int|
            0 <= k < uncaptured_indices(av, busy, n).len() ==> {
                let i = #[trigger] uncaptured_indices(av, busy, n)[k];
                &&& i < n
                &&& !is_captured_sibling(av[i as int], busy)
            },
    decreases n,
{
    if n > 0 {
        lemma_uncaptured_indices(av, busy, n - 1);
        let before = uncaptured_indices(av, busy, n - 1);
        let after = uncaptured_indices(av, busy, n);
        assert forall|k: int| 0 <= k < after.len() implies {
            let i = #[trigger] after[k];
            &&& i < n
            &&& !is_captured_sibling(av[i as int], busy)
        } by {
            if k < before.len() {
                assert(after[k] == before[k]);
            }
        }
    }
}

/// Every index in `physical_indices` comes from `idx` and names a physical
/// candidate.
proof fn lemma_physical_indices(av: Seq<Candidate>, idx: Seq<usize>)
    ensures
        forall|k: int|
            0 <= k < physical_indices(av, idx).len() ==> {
                let i = #[trigger] physical_indices(av, idx)[k];
                &&& idx.contains(i)
                &&& !av[i as int].is_virtual
            },
        physical_indices(av, idx).len() <= idx.len(),
    decreases idx.len(),
{
    if idx.len() > 0 {
        lemma_physical_indices(av, idx.drop_last());
        assert forall|k: int|
            0 <= k < physical_indices(av, idx).len() implies idx.contains(
            #[trigger] physical_indices(av, idx)[k],
        ) by {
            let i = physical_indices(av, idx)[k];
            if k < physical_indices(av, idx.drop_last()).len() {
                let w = choose|w: int| 0 <= w < idx.drop_last().len() && idx.drop_last()[w] == i;
                assert(idx[w] == i);
            } else {
                assert(idx[idx.len() - 1] == i);
            }
        }
    }
}

/// Whether a candidate shares its USB device with a busy wheel device.
fn captured_sibling(candidate: &Candidate, busy: &Vec<String>) -> (b: bool)
    ensures
        b == is_captured_sibling(*candidate, busy@.map_values(|s: String| s@)),
{
    let ghost views = busy@.map_values(|s: String| s@);
    match &candidate.usb_source {
        Some(source) => {
            let mut k: usize = 0;
            while k < busy.len()
                invariant
                    views == busy@.map_values(|s: String| s@),
                    candidate.usb_source == Some(*source),
                    k <= busy@.len(),
                    forall|j: int| 0 <= j < k ==> views[j] != source@,
                decreases busy.len() - k,
            {
                if busy[k] == *source {
                    assert(views[k as int] == busy@[k as int]@);
                    assert(views[k as int] == source@);
                    return true;
                }
                k = k + 1;
            }
            assert(!views.contains(source@)) by {
                if views.contains(source@) {
                    let j = choose|j: int| 0 <= j < views.len() && views[j] == source@;
                    assert(views[j] != source@);
                }
            }
            false
        },
        None => false,
    }
}

/// Chooses the wheel device to convert among the free ones, or says why
/// none can be chosen safely.
pub fn select_candidate(discovery: &Discovery) -> (r: Result<&Candidate, SelectionError>)
    ensures
        match r {
            Ok(c) => choice(*discovery) matches Choice::Chosen(i) && i < discovery.available@.len()
                && *c == discovery.available@[i as int],
            Err(SelectionError::CapturedReceiver) => choice(*discovery) == Choice::CapturedReceiver,
            Err(SelectionError::NoSafeDevice) => choice(*discovery) == Choice::NoSafeDevice,
            Err(SelectionError::Ambiguous(left)) => choice(*discovery) == Choice::Ambiguous(left@),
        },
{
    let n = discovery.available.len();
    let ghost av = discovery.available@;
    let ghost busy = busy_views(*discovery);
    let mut has_virtual = false;
    let mut has_sibling = false;
    let mut i: usize = 0;
    while i < n
        invariant
            n == av.len(),
            av == discovery.available@,
            busy == busy_views(*discovery),
            i <= n,
            has_virtual == exists|j: int| 0 <= j < i && (#[trigger] av[j]).is_virtual,
            has_sibling == exists|j: int|
                0 <= j < i && is_captured_sibling(#[trigger] av[j], busy),
        decreases n - i,
    {
        let candidate = &discovery.available[i];
        if candidate.is_virtual {
            has_virtual = true;
        }
        if captured_sibling(candidate, &discovery.busy_usb_sources) {
            has_sibling = true;
        }
        assert(av[i as int] == *candidate);
        i = i + 1;
    }
    if !has_virtual && has_sibling {
        return Err(SelectionError::CapturedReceiver);
    }
    let mut uncaptured: Vec<usize> = Vec::new();
    let mut i: usize = 0;
    while i < n
        invariant
            n == av.len(),
            av == discovery.available@,
            busy == busy_views(*discovery),
            i <= n,
            uncaptured@ == uncaptured_indices(av, busy, i as int),
        decreases n - i,
    {
        if !captured_sibling(&discovery.available[i], &discovery.busy_usb_sources) {
            uncaptured.push(i);
        }
        i = i + 1;
    }
    proof {
        lemma_uncaptured_indices(av, busy, n as int);
    }
    let mut physical: Vec<usize> = Vec::new();
    let mut k: usize = 0;
    while k < uncaptured.len()
        invariant
            n == av.len(),
            av == discovery.available@,
            uncaptured@ == uncaptured_indices(av, busy, n as int),
            forall|j: int| 0 <= j < uncaptured@.len() ==> #[trigger] uncaptured@[j] < n,
            k <= uncaptured@.len(),
            physical@ == physical_indices(av, uncaptured@.subrange(0, k as int)),
        decreases uncaptured.len() - k,
    {
        assert(uncaptured@.subrange(0, k + 1).drop_last() =~= uncaptured@.subrange(0, k as int));
        let index = uncaptured[k];
        if !discovery.available[index].is_virtual {
            physical.push(index);
        }
        k = k + 1;
    }
    assert(uncaptured@.subrange(0, uncaptured@.len() as int) =~= uncaptured@);
    let left = if discovery.busy_wheel_count == 0 && physical.len() > 0 {
        physical
    } else {
        uncaptured
    };
    proof {
        lemma_physical_indices(av, uncaptured@);
        assert(left@ == remaining_indices(*discovery));
    }
    if left.len() == 1 {
        assert(left@.contains(left@[0]));
        Ok(&discovery.available[left[0]])
    } else if left.len() == 0 {
        Err(SelectionError::NoSafeDevice)
    } else {
        Err(SelectionError::Ambiguous(left))
    }
}


/// Every candidate below `n` that is not a captured sibling has its index
/// among `uncaptured_indices`.
proof fn lemma_uncaptured_complete(av: Seq<Candidate>, busy: Seq<Seq<char>>, n: int, j: int)
    requires
        0 <= j < n <= av.len(),
        av.len() <= usize::MAX,
        !is_captured_sibling(av[j], busy),
    ensures
        uncaptured_indices(av, busy, n).contains(j as usize),
    decreases n,
{
    let after = uncaptured_indices(av, busy, n);
    if j == n - 1 {
        assert(after[after.len() - 1] == j as usize);
    } else {
        lemma_uncaptured_complete(av, busy, n - 1, j);
        let before = uncaptured_indices(av, busy, n - 1);
        let w = choose|w: int| 0 <= w < before.len() && before[w] == j as usize;
        assert(after[w] == j as usize);
    }
}

/// A physical candidate named in `idx` leaves `physical_indices` non-empty.
proof fn lemma_physical_nonempty(av: Seq<Candidate>, idx: Seq<usize>, i: usize)
    requires
        idx.contains(i),
        !av[i as int].is_virtual,
    ensures
        physical_indices(av, idx).len() > 0,
    decreases idx.len(),
{
    if idx.last() != i {
        let w = choose|w: int| 0 <= w < idx.len() && idx[w] == i;
        assert(idx.drop_last()[w] == i);
        lemma_physical_nonempty(av, idx.drop_last(), i);
    }
}

/// The choice is safe: a chosen device is never a free sibling of a captured
/// receiver; when no wheel device is held by another process and a free
/// physical device is left, no virtual output displaces it; and without any
/// virtual device, a captured sibling blocks the choice. Several devices
/// left are never chosen among arbitrarily.
pub proof fn lemma_choice_is_safe(d: Discovery)
    requires
        d.available@.len() <= usize::MAX,
    ensures
        choice(d) matches Choice::Chosen(i) ==> {
            &&& i < d.available@.len()
            &&& !is_captured_sibling(d.available@[i as int], busy_views(d))
        },
        choice(d) matches Choice::Chosen(i) ==> (d.busy_wheel_count == 0 && exists|j: int|
            0 <= j < d.available@.len() && !is_captured_sibling(
                #[trigger] d.available@[j],
                busy_views(d),
            ) && !d.available@[j].is_virtual) ==> !d.available@[i as int].is_virtual,
        (forall|j: int| 0 <= j < d.available@.len() ==> !(#[trigger] d.available@[j]).is_virtual)
            && (exists|j: int|
            0 <= j < d.available@.len() && is_captured_sibling(
                #[trigger] d.available@[j],
                busy_views(d),
            )) ==> choice(d) == Choice::CapturedReceiver,
        choice(d) matches Choice::Ambiguous(left) ==> left.len() >= 2,
{
    let av = d.available@;
    let busy = busy_views(d);
    let n = av.len() as int;
    let uncaptured = uncaptured_indices(av, busy, n);
    lemma_uncaptured_indices(av, busy, n);
    lemma_physical_indices(av, uncaptured);
    if d.busy_wheel_count == 0 && exists|j: int|
        0 <= j < n && !is_captured_sibling(#[trigger] av[j], busy) && !av[j].is_virtual {
        let j = choose|j: int|
            0 <= j < n && !is_captured_sibling(#[trigger] av[j], busy) && !av[j].is_virtual;
        lemma_uncaptured_complete(av, busy, n, j);
        lemma_physical_nonempty(av, uncaptured, j as usize);
    }
    if let Choice::Chosen(i) = choice(d) {
        let left = remaining_indices(d);
        assert(left[0] == i);
        if left =~= physical_indices(av, uncaptured) {
            let p = physical_indices(av, uncaptured);
            assert(p[0] == i);
            assert(uncaptured.contains(i));
        }
    }
}


/// The name prefix of the virtual devices that the service creates itself.
pub open spec fn output_prefix() -> Seq<char> {
    "Linux Scroll Fix"@
}

/// Whether a device is one of the service's own outputs, which are never
/// captured.
pub fn is_own_output(name: &str) -> (b: bool)
    ensures
        b == starts_with(name@, output_prefix()),
{
    let chars = chars_of(name);
    let prefix = chars_of("Linux Scroll Fix");
    matches_at(&chars, &prefix, 0)
}

/// Whether a physical device's name passes the name filters: no filter is
/// set, or the name contains one of them, ignoring case.
pub open spec fn name_passes(name: Seq<char>, patterns: Seq<String>) -> bool {
    patterns.len() == 0 || exists|i: int|
        0 <= i < patterns.len() && contains_chars(
            lowercase_of(name),
            lowercase_of(#[trigger] patterns[i]@),
        )
}

/// The name filters ignore case on both sides; without filters every name
/// passes. Filter lists whose entries
/// have the same lower-case forms, checked against names with the same
/// lower-case form, decide alike; a filter that occurs in the name, both
/// taken in lower case, lets the name pass; and when none does, a non-empty
/// list of filters rejects it.
pub proof fn lemma_name_filters_ignore_case(
    name: Seq<char>,
    other_name: Seq<char>,
    patterns: Seq<String>,
    other_patterns: Seq<String>,
)
    requires
        lowercase_of(name) == lowercase_of(other_name),
        patterns.len() == other_patterns.len(),
        forall|i: int|
            0 <= i < patterns.len() ==> lowercase_of((#[trigger] patterns[i])@) == lowercase_of(
                other_patterns[i]@,
            ),
    ensures
        name_passes(name, patterns) == name_passes(other_name, other_patterns),
        patterns.len() == 0 ==> name_passes(name, patterns),
        forall|i: int|
            0 <= i < patterns.len() && contains_chars(
                lowercase_of(name),
                lowercase_of((#[trigger] patterns[i])@),
            ) ==> name_passes(name, patterns),
        patterns.len() > 0 && (forall|i: int|
            0 <= i < patterns.len() ==> !contains_chars(
                lowercase_of(name),
                lowercase_of((#[trigger] patterns[i])@),
            )) ==> !name_passes(name, patterns),
{
    if name_passes(name, patterns) && patterns.len() > 0 {
        let i = choose|i: int|
            0 <= i < patterns.len() && contains_chars(
                lowercase_of(name),
                lowercase_of(#[trigger] patterns[i]@),
            );
        assert(contains_chars(lowercase_of(other_name), lowercase_of(other_patterns[i]@)));
    }
    if name_passes(other_name, other_patterns) && patterns.len() > 0 {
        let i = choose|i: int|
            0 <= i < other_patterns.len() && contains_chars(
                lowercase_of(other_name),
                lowercase_of(#[trigger] other_patterns[i]@),
            );
        assert(lowercase_of(patterns[i]@) == lowercase_of(other_patterns[i]@));
        assert(contains_chars(lowercase_of(name), lowercase_of(patterns[i]@)));
    }
}

/// Whether `hay` contains one of `needles`.
pub open spec fn contains_any(hay: Seq<char>, needles: Seq<String>) -> bool {
    exists|i: int| 0 <= i < needles.len() && contains_chars(hay, #[trigger] needles[i]@)
}

/// Whether `hay` contains one of `needles`, comparing characters exactly.
pub fn contains_any_of(hay: &str, needles: &Vec<String>) -> (b: bool)
    ensures
        b == contains_any(hay@, needles@),
{
    let chars = chars_of(hay);
    let mut i: usize = 0;
    while i < needles.len()
        invariant
            chars@ == hay@,
            i <= needles@.len(),
            forall|j: int| 0 <= j < i ==> !contains_chars(hay@, #[trigger] needles@[j]@),
        decreases needles.len() - i,
    {
        let needle = chars_of(needles[i].as_str());
        if find_chars(&chars, &needle) {
            return true;
        }
        i = i + 1;
    }
    false
}

/// Whether a device's name passes the name filters: the lower-case forms
/// of the name and of the filters go to `contains_any_of`.
pub fn name_matches_patterns(name: &str, patterns: &Vec<String>) -> (b: bool)
    ensures
        b == name_passes(name@, patterns@),
{
    if patterns.len() == 0 {
        return true;
    }
    let lowered = lowercase(name);
    let mut lowered_patterns: Vec<String> = Vec::new();
    let mut i: usize = 0;
    while i < patterns.len()
        invariant
            i <= patterns@.len(),
            lowered_patterns@.len() == i,
            forall|j: int|
                0 <= j < i ==> (#[trigger] lowered_patterns@[j])@ == lowercase_of(patterns@[j]@),
        decreases patterns.len() - i,
    {
        lowered_patterns.push(lowercase(patterns[i].as_str()));
        i = i + 1;
    }
    let found = contains_any_of(lowered.as_str(), &lowered_patterns);
    assert(found == name_passes(name@, patterns@)) by {
        if found {
            let j = choose|j: int|
                0 <= j < lowered_patterns@.len() && contains_chars(
                    lowercase_of(name@),
                    #[trigger] lowered_patterns@[j]@,
                );
            assert(contains_chars(lowercase_of(name@), lowercase_of(patterns@[j]@)));
        } else {
            assert forall|j: int| 0 <= j < patterns@.len() implies !contains_chars(
                lowercase_of(name@),
                lowercase_of(#[trigger] patterns@[j]@),
            ) by {
                assert(lowered_patterns@[j]@ == lowercase_of(patterns@[j]@));
            }
        }
    }
    found
}

/// What trying to grab a wheel device exclusively showed.
#[derive(Debug, Clone, Copy, PartialEq, Eq, Structural)]
pub enum GrabOutcome {
    /// The device could be grabbed and released again.
    Available,
    /// Another process holds the device exclusively.
    Busy,
    /// The device could not be grabbed for another reason, or not released.
    Unavailable,
}

/// A wheel device found by a scan, before the grab test is recorded.
#[derive(Debug, Clone, PartialEq, Eq)]
pub struct ProbedDevice {
    pub path: String,
    pub name: String,
    pub vendor: u16,
    pub product: u16,
    /// The kernel's physical path of the device, if it has one.
    pub physical_path: Option<String>,
    pub is_virtual: bool,
}

/// The view of an optional string.
pub open spec fn optional_view(o: Option<String>) -> Option<Seq<char>> {
    match o {
        Some(s) => Some(s@),
        None => None,
    }
}

/// The USB device of a probed device: none for virtual devices, otherwise
/// that of its physical path.
pub open spec fn probed_source(device: ProbedDevice) -> Option<Seq<char>> {
    if device.is_virtual {
        None
    } else {
        match device.physical_path {
            Some(phys) => usb_source_of(phys@),
            None => None,
        }
    }
}

/// Whether `c` is the candidate recorded for `device`.
pub open spec fn is_candidate_of(c: Candidate, device: ProbedDevice) -> bool {
    &&& c.path == device.path
    &&& c.name == device.name
    &&& c.vendor == device.vendor
    &&& c.product == device.product
    &&& c.is_virtual == device.is_virtual
    &&& optional_view(c.usb_source) == probed_source(device)
}

impl Discovery {
    /// Records the grab test of a wheel device. A device held by another
    /// process counts as busy, together with its USB device; a device that
    /// could not be tested is skipped; a free device is a candidate when it
    /// is virtual or passes the name filters. Virtual outputs of remappers
    /// are recognised by the kernel, not by names or vendor identifiers.
    pub fn record(&mut self, device: ProbedDevice, grab: GrabOutcome, patterns: &Vec<String>)
        requires
            grab == GrabOutcome::Busy ==> old(self).busy_wheel_count < usize::MAX,
        ensures
            grab == GrabOutcome::Busy ==> {
                &&& final(self).available@ == old(self).available@
                &&& final(self).busy_wheel_count == old(self).busy_wheel_count + 1
                &&& busy_views(*final(self)) == match probed_source(device) {
                    Some(source) => busy_views(*old(self)).push(source),
                    None => busy_views(*old(self)),
                }
            },
            grab == GrabOutcome::Unavailable ==> *final(self) == *old(self),
            grab == GrabOutcome::Available ==> {
                &&& final(self).busy_usb_sources == old(self).busy_usb_sources
                &&& final(self).busy_wheel_count == old(self).busy_wheel_count
                &&& if device.is_virtual || name_passes(device.name@, patterns@) {
                    &&& final(self).available@.len() == old(self).available@.len() + 1
                    &&& final(self).available@.drop_last() == old(self).available@
                    &&& is_candidate_of(final(self).available@.last(), device)
                } else {
                    final(self).available@ == old(self).available@
                }
            },
    {
        let ProbedDevice { path, name, vendor, product, physical_path, is_virtual } = device;
        let source = if is_virtual {
            None
        } else {
            match physical_path {
                Some(phys) => usb_source(phys.as_str()),
                None => None,
            }
        };
        assert(optional_view(source) == probed_source(device));
        match grab {
            GrabOutcome::Busy => {
                self.busy_wheel_count = self.busy_wheel_count + 1;
                match source {
                    Some(s) => {
                        let ghost before = self.busy_usb_sources@;
                        self.busy_usb_sources.push(s);
                        assert(self.busy_usb_sources@.map_values(|s: String| s@) =~= before.map_values(
                            |s: String| s@,
                        ).push(s@));
                    },
                    None => {},
                }
            },
            GrabOutcome::Unavailable => {},
            GrabOutcome::Available => {
                if is_virtual || name_matches_patterns(name.as_str(), patterns) {
                    let candidate = Candidate {
                        path,
                        name,
                        vendor,
                        product,
                        usb_source: source,
                        is_virtual,
                    };
                    let ghost before = self.available@;
                    self.available.push(candidate);
                    assert(self.available@.drop_last() =~= before);
                }
            },
        }
    }
}


/// The only device of a list, or why there is not exactly one: the daemon
/// uses a device automatically only when exactly one safe device is found.
pub fn sole_candidate(candidates: &Vec<Candidate>) -> (r: Result<&Candidate, SelectionError>)
    ensures
        candidates@.len() == 1 ==> (r matches Ok(c) && *c == candidates@[0]),
        candidates@.len() == 0 ==> r == Err::<&Candidate, SelectionError>(
            SelectionError::NoSafeDevice,
        ),
        candidates@.len() > 1 ==> (r matches Err(SelectionError::Ambiguous(left)) && left@
            == Seq::new(candidates@.len(), |i: int| i as usize)),
{
    let n = candidates.len();
    if n == 1 {
        return Ok(&candidates[0]);
    }
    if n == 0 {
        return Err(SelectionError::NoSafeDevice);
    }
    let mut left: Vec<usize> = Vec::new();
    let mut i: usize = 0;
    while i < n
        invariant
            n == candidates@.len(),
            i <= n,
            left@ == Seq::new(i as nat, |k: int| k as usize),
        decreases n - i,
    {
        left.push(i);
        i = i + 1;
        assert(left@ =~= Seq::new(i as nat, |k: int| k as usize));
    }
    Err(SelectionError::Ambiguous(left))
}

} // verus!
