use vstd::prelude::*;

verus! {

/// One node of an enumerated block-device tree: a disk or a partition.
#[derive(Debug, PartialEq, Eq)]
pub struct Device {
    pub name: String,
    pub size: String,
    pub device_type: String,
    pub tran: Option<String>,
    pub mountpoint: Option<String>,
    pub vendor: Option<String>,
    pub model: Option<String>,
    pub hotplug: Option<bool>,
    pub children: Option<Vec<Device>>,
}

/// The whole listing produced by the enumeration tool.
#[derive(Debug, PartialEq, Eq)]
pub struct LsblkOutput {
    pub blockdevices: Vec<Device>,
}

/// A device counts as a removable USB disk when its transport is exactly `usb`.
pub open spec fn is_usb(d: Device) -> bool {
    match d.tran {
        Some(t) => t@ == "usb"@,
        None => false,
    }
}

/// The USB disks of a listing, in their original order.
pub open spec fn usb_only(ds: Seq<Device>) -> Seq<Device> {
    ds.filter(|d: Device| is_usb(d))
}

fn tran_is_usb(d: &Device) -> (r: bool)
    ensures
        r == is_usb(*d),
{
    match &d.tran {
        Some(t) => {
            let usb = "usb".to_owned();
            *t == usb
        },
        None => false,
    }
}

/// Keeps the top-level devices whose transport is `usb`, in their order.
/// Children travel with their disk whatever their own transport says.
pub fn filter_usb(devices: Vec<Device>) -> (r: Vec<Device>)
    ensures
        r@ == usb_only(devices@),
{
    let ghost all = devices@;
    let mut rest = devices;
    let mut kept: Vec<Device> = Vec::new();
    let ghost mut i: int = 0;
    while rest.len() > 0
        invariant
            0 <= i <= all.len(),
            rest@ == all.subrange(i, all.len() as int),
            kept@ == usb_only(all.subrange(0, i)),
        decreases rest.len(),
    {
        let d = rest.remove(0);
        proof {
            let next = all.subrange(0, i + 1);
            assert(next.drop_last() =~= all.subrange(0, i));
            assert(next.last() == d);
            reveal(Seq::filter);
            i = i + 1;
        }
        if tran_is_usb(&d) {
            kept.push(d);
        }
        proof {
            assert(rest@ =~= all.subrange(i, all.len() as int));
        }
    }
    proof {
        assert(all.subrange(0, i) =~= all);
    }
    kept
}

/// Why discovery produced no device list.
#[derive(Debug, Clone, PartialEq, Eq)]
pub enum DiscoveryError {
    /// The enumeration tool could not be launched or exited unsuccessfully;
    /// the text is the launch failure or the tool's standard error.
    ExecutionFailed(String),
    /// The tool's output was not a listing of the expected shape.
    ParseFailed(String),
}

/// How a finished enumeration process ended.
#[derive(Debug, Clone, PartialEq, Eq)]
pub struct ProcessRun {
    pub success: bool,
    pub stderr: String,
}

/// Turns one run of the enumeration tool into the USB disks it listed.
/// `launch` is the process outcome (or why it could not start) and `listing`
/// the decoded standard output (or why it could not be decoded).
pub fn get_usb_devices(launch: Result<ProcessRun, String>, listing: Result<LsblkOutput, String>) -> (r:
    Result<Vec<Device>, DiscoveryError>)
    ensures
        match launch {
            Err(e) => r == Err::<Vec<Device>, DiscoveryError>(DiscoveryError::ExecutionFailed(e)),
            Ok(run) => if !run.success {
                r == Err::<Vec<Device>, DiscoveryError>(DiscoveryError::ExecutionFailed(run.stderr))
            } else {
                match listing {
                    Err(m) => r == Err::<Vec<Device>, DiscoveryError>(DiscoveryError::ParseFailed(m)),
                    Ok(out) => r is Ok && r->Ok_0@ == usb_only(out.blockdevices@),
                }
            },
        },
{
    match launch {
        Err(e) => Err(DiscoveryError::ExecutionFailed(e)),
        Ok(run) => {
            if !run.success {
                Err(DiscoveryError::ExecutionFailed(run.stderr))
            } else {
                match listing {
                    Err(m) => Err(DiscoveryError::ParseFailed(m)),
                    Ok(out) => Ok(filter_usb(out.blockdevices)),
                }
            }
        },
    }
}

/// The named device is not among the discovered USB disks.
#[derive(Debug, Clone, PartialEq, Eq)]
pub struct NotFoundError {
    pub name: String,
}

/// Whether some device of `ds` carries the name `name`.
pub open spec fn has_name(ds: Seq<Device>, name: Seq<char>) -> bool {
    exists|i: int| 0 <= i < ds.len() && #[trigger] ds[i].name@ == name
}

/// Finds the first top-level device called exactly `name`; partitions are
/// not searched.
pub fn find_device<'a>(devices: &'a Vec<Device>, name: &str) -> (r: Result<&'a Device, NotFoundError>)
    ensures
        match r {
            Ok(d) => exists|i: int|
                0 <= i < devices@.len() && devices@[i] == *d && d.name@ == name@ && !has_name(
                    devices@.subrange(0, i),
                    name@,
                ),
            Err(e) => e.name@ == name@ && !has_name(devices@, name@),
        },
{
    let wanted = name.to_owned();
    let mut i: usize = 0;
    while i < devices.len()
        invariant
            i <= devices@.len(),
            wanted@ == name@,
            !has_name(devices@.subrange(0, i as int), name@),
        decreases devices@.len() - i,
    {
        if devices[i].name == wanted {
            return Ok(&devices[i]);
        }
        proof {
            let pre = devices@.subrange(0, i as int + 1);
            assert forall|j: int| 0 <= j < pre.len() implies #[trigger] pre[j].name@ != name@ by {
                if j < i {
                    assert(pre[j] == devices@.subrange(0, i as int)[j]);
                }
            }
        }
        i = i + 1;
    }
    proof {
        assert(devices@.subrange(0, i as int) =~= devices@);
    }
    Err(NotFoundError { name: wanted })
}

/// Every USB disk that filtering keeps comes from the listing.
proof fn lemma_usb_only_member(listing: Seq<Device>, k: int)
    requires
        0 <= k < usb_only(listing).len(),
    ensures
        is_usb(usb_only(listing)[k]),
        exists|i: int| 0 <= i < listing.len() && listing[i] == usb_only(listing)[k],
    decreases listing.len(),
{
    reveal(Seq::filter);
    let rest = listing.drop_last();
    if k < usb_only(rest).len() {
        lemma_usb_only_member(rest, k);
        let i = choose|i: int| 0 <= i < rest.len() && rest[i] == usb_only(rest)[k];
        assert(listing[i] == usb_only(listing)[k]);
    } else {
        assert(listing[listing.len() - 1] == usb_only(listing)[k]);
    }
}

/// A name is found among the USB disks of a listing exactly when a USB disk
/// of the listing carries it: names of other devices are never found.
pub proof fn lemma_lookup_sees_only_usb(listing: Seq<Device>, name: Seq<char>)
    ensures
        has_name(usb_only(listing), name) <==> exists|i: int|
            0 <= i < listing.len() && is_usb(#[trigger] listing[i]) && listing[i].name@ == name,
{
    broadcast use vstd::seq_lib::group_filter_ensures;

    let pred = |d: Device| is_usb(d);
    let u = usb_only(listing);
    if has_name(u, name) {
        let k = choose|k: int| 0 <= k < u.len() && #[trigger] u[k].name@ == name;
        lemma_usb_only_member(listing, k);
        let i = choose|i: int| 0 <= i < listing.len() && listing[i] == u[k];
        assert(is_usb(listing[i]) && listing[i].name@ == name);
    }
    if exists|i: int| 0 <= i < listing.len() && is_usb(#[trigger] listing[i]) && listing[i].name@ == name {
        let i = choose|i: int| 0 <= i < listing.len() && is_usb(#[trigger] listing[i]) && listing[i].name@ == name;
        assert(pred(listing[i]));
        assert(u.contains(listing[i]));
        let k = choose|k: int| 0 <= k < u.len() && u[k] == listing[i];
        assert(u[k].name@ == name);
    }
}

/// The mountpoints of a sequence of partitions, in order, skipping unmounted ones.
pub open spec fn mounts_of(parts: Seq<Device>) -> Seq<Seq<char>>
    decreases parts.len(),
{
    if parts.len() == 0 {
        Seq::empty()
    } else {
        let before = mounts_of(parts.drop_last());
        match parts.last().mountpoint {
            Some(m) => before.push(m@),
            None => before,
        }
    }
}

/// The mountpoints of the partitions of a disk.
pub open spec fn disk_mounts(d: Device) -> Seq<Seq<char>> {
    match d.children {
        Some(cs) => mounts_of(cs@),
        None => Seq::empty(),
    }
}

/// The mountpoints of the partitions of every disk, disk by disk.
pub open spec fn all_mounts(ds: Seq<Device>) -> Seq<Seq<char>>
    decreases ds.len(),
{
    if ds.len() == 0 {
        Seq::empty()
    } else {
        all_mounts(ds.drop_last()) + disk_mounts(ds.last())
    }
}

/// The views of a sequence of strings.
pub open spec fn views(v: Seq<String>) -> Seq<Seq<char>> {
    v.map_values(|s: String| s@)
}

/// Collects the mountpoints of the partitions of the given disks: the places a
/// copy can go to or an unmount can act on. Disks' own mountpoints are not listed.
pub fn mountpoints(devices: &Vec<Device>) -> (r: Vec<String>)
    ensures
        views(r@) == all_mounts(devices@),
{
    let mut out: Vec<String> = Vec::new();
    let mut i: usize = 0;
    while i < devices.len()
        invariant
            i <= devices@.len(),
            views(out@) == all_mounts(devices@.subrange(0, i as int)),
        decreases devices@.len() - i,
    {
        let ghost base = out@;
        let d = &devices[i];
        if let Some(children) = &d.children {
            let mut j: usize = 0;
            while j < children.len()
                invariant
                    j <= children@.len(),
                    d.children == Some(*children),
                    views(out@) == views(base) + mounts_of(children@.subrange(0, j as int)),
                decreases children@.len() - j,
            {
                let ghost pre = out@;
                if let Some(m) = &children[j].mountpoint {
                    out.push(m.clone());
                    assert(views(out@) =~= views(pre).push(m@));
                }
                assert(children@.subrange(0, j as int + 1).drop_last() =~= children@.subrange(0, j as int));
                j = j + 1;
            }
            assert(children@.subrange(0, j as int) =~= children@);
        }
        proof {
            let next = devices@.subrange(0, i as int + 1);
            assert(next.drop_last() =~= devices@.subrange(0, i as int));
            assert(next.last() == *d);
            assert(views(out@) =~= all_mounts(next));
        }
        i = i + 1;
    }
    assert(devices@.subrange(0, i as int) =~= devices@);
    out
}

/// The word shown for a device's hotplug flag.
pub fn hotplug_label(hotplug: Option<bool>) -> (r: &'static str)
    ensures
        r@ == match hotplug {
            Some(true) => "YES"@,
            Some(false) => "NO"@,
            None => "-"@,
        },
{
    match hotplug {
        Some(true) => "YES",
        Some(false) => "NO",
        None => "-",
    }
}

/// An optional descriptive field as shown in a table: its text, or `-` when absent.
pub fn or_dash(field: &Option<String>) -> (r: String)
    ensures
        r@ == match field {
            Some(s) => s@,
            None => "-"@,
        },
{
    match field {
        Some(s) => s.clone(),
        None => "-".to_owned(),
    }
}

} // verus!
