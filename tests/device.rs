use usbtool::device::{
    filter_usb, find_device, get_usb_devices, hotplug_label, mountpoints, or_dash, Device,
    DiscoveryError, LsblkOutput, ProcessRun,
};

fn dev(name: &str, tran: Option<&str>, mountpoint: Option<&str>, children: Option<Vec<Device>>) -> Device {
    Device {
        name: name.to_string(),
        size: "7.5G".to_string(),
        device_type: if children.is_some() { "disk".to_string() } else { "part".to_string() },
        tran: tran.map(|t| t.to_string()),
        mountpoint: mountpoint.map(|m| m.to_string()),
        vendor: None,
        model: None,
        hotplug: None,
        children,
    }
}

fn listing() -> Vec<Device> {
    vec![
        dev("sda", Some("sata"), None, Some(vec![dev("sda1", None, Some("/"), None)])),
        dev("sdb", Some("usb"), None, Some(vec![dev("sdb1", None, Some("/mnt/usb"), None), dev("sdb2", None, None, None)])),
        dev("nvme0n1", Some("nvme"), None, None),
        dev("sdc", Some("usb"), None, Some(vec![dev("sdc1", Some("sata"), Some("/media/stick"), None)])),
        dev("sdd", Some("USB"), None, None),
    ]
}

fn names(ds: &[Device]) -> Vec<String> {
    ds.iter().map(|d| d.name.clone()).collect()
}

#[test]
fn filter_keeps_usb_disks_in_order() {
    let kept = filter_usb(listing());
    assert_eq!(names(&kept), vec!["sdb".to_string(), "sdc".to_string()]);
}

#[test]
fn filter_keeps_children_whatever_their_transport() {
    let kept = filter_usb(listing());
    let sdc_children = kept[1].children.as_ref().unwrap();
    assert_eq!(sdc_children.len(), 1);
    assert_eq!(sdc_children[0].name, "sdc1");
    assert_eq!(kept[0].children.as_ref().unwrap().len(), 2);
}

#[test]
fn filter_of_empty_listing_is_empty() {
    assert!(filter_usb(Vec::new()).is_empty());
}

#[test]
fn filter_is_case_sensitive() {
    let kept = filter_usb(vec![dev("sdd", Some("USB"), None, None), dev("sde", Some("usb "), None, None)]);
    assert!(kept.is_empty());
}

#[test]
fn lookup_returns_discovered_device() {
    let usb = filter_usb(listing());
    let found = find_device(&usb, "sdb").unwrap();
    assert_eq!(found, &dev("sdb", Some("usb"), None, Some(vec![dev("sdb1", None, Some("/mnt/usb"), None), dev("sdb2", None, None, None)])));
}

#[test]
fn lookup_rejects_non_usb_name() {
    let usb = filter_usb(listing());
    let err = find_device(&usb, "sda").unwrap_err();
    assert_eq!(err.name, "sda");
}

#[test]
fn lookup_does_not_search_partitions() {
    let usb = filter_usb(listing());
    assert!(find_device(&usb, "sdb1").is_err());
}

#[test]
fn lookup_is_exact() {
    let usb = filter_usb(listing());
    assert!(find_device(&usb, "SDB").is_err());
    assert!(find_device(&usb, "sd").is_err());
}

#[test]
fn discovery_nonzero_exit_surfaces_stderr() {
    let run = ProcessRun { success: false, stderr: "lsblk: unknown column".to_string() };
    let r = get_usb_devices(Ok(run), Err("not parsed".to_string()));
    assert_eq!(r, Err(DiscoveryError::ExecutionFailed("lsblk: unknown column".to_string())));
}

#[test]
fn discovery_launch_failure() {
    let r = get_usb_devices(Err("No such file or directory".to_string()), Err("none".to_string()));
    assert_eq!(r, Err(DiscoveryError::ExecutionFailed("No such file or directory".to_string())));
}

#[test]
fn discovery_parse_failure() {
    let run = ProcessRun { success: true, stderr: String::new() };
    let r = get_usb_devices(Ok(run), Err("expected value at line 1".to_string()));
    assert_eq!(r, Err(DiscoveryError::ParseFailed("expected value at line 1".to_string())));
}

#[test]
fn discovery_success_filters_listing() {
    let run = ProcessRun { success: true, stderr: String::new() };
    let r = get_usb_devices(Ok(run), Ok(LsblkOutput { blockdevices: listing() })).unwrap();
    assert_eq!(names(&r), vec!["sdb".to_string(), "sdc".to_string()]);
}

#[test]
fn mountpoints_of_usb_partitions() {
    let usb = filter_usb(listing());
    assert_eq!(mountpoints(&usb), vec!["/mnt/usb".to_string(), "/media/stick".to_string()]);
}

#[test]
fn mountpoints_skip_disks_without_children() {
    let ds = vec![dev("sdx", Some("usb"), Some("/mnt/whole"), None)];
    assert!(mountpoints(&ds).is_empty());
}

#[test]
fn hotplug_labels() {
    assert_eq!(hotplug_label(Some(true)), "YES");
    assert_eq!(hotplug_label(Some(false)), "NO");
    assert_eq!(hotplug_label(None), "-");
}

#[test]
fn optional_fields_shown_with_dash() {
    assert_eq!(or_dash(&Some("SanDisk".to_string())), "SanDisk");
    assert_eq!(or_dash(&None), "-");
}
