use ponde::device_fd::{DeviceFd, DeviceFdMap};
use ponde::errors::Error;
use ponde::event_route::grab_target;

fn new_device_fd(fd: i32, path: &str) -> DeviceFd {
    DeviceFd::new(fd, path).unwrap()
}

#[test]
fn test_insert() {
    let mut map = DeviceFdMap::default();

    let (t1, t2, t3) = (11, 12, 13);

    map.insert(new_device_fd(t1, "/dev/f1"));
    map.insert(new_device_fd(t2, "/dev/f2"));
    assert_eq!(map.len(), 2);
    assert_eq!(map.get_by_name("f1"), Some(&new_device_fd(t1, "/dev/f1")));

    // name should be a key
    map.insert(new_device_fd(t3, "/dev/f1"));
    assert_eq!(map.len(), 2);
    assert_eq!(map.get_by_name("f1"), Some(&new_device_fd(t3, "/dev/f1")));

    // fd should also be a key
    map.insert(new_device_fd(t3, "/dev/f3"));
    assert_eq!(map.len(), 2);
    assert_eq!(map.get_by_name("f3"), Some(&new_device_fd(t3, "/dev/f3")));

    // fd and path matches different entries, should remove both entries
    map.insert(new_device_fd(t3, "/dev/f2"));
    assert_eq!(map.len(), 1);
    assert_eq!(map.get_by_name("f2"), Some(&new_device_fd(t3, "/dev/f2")));
}

#[test]
fn test_get_by_name() {
    let mut map = DeviceFdMap::default();
    let t1 = 11;

    map.insert(new_device_fd(t1, "f1/f1"));
    assert_eq!(map.len(), 1);
    assert_eq!(map.get_by_name("f1"), Some(&new_device_fd(t1, "f1/f1")));
    assert_eq!(map.get_by_name("f2"), None);
}

#[test]
fn test_get_by_name_mut() {
    let mut map = DeviceFdMap::default();
    let t1 = 11;

    map.insert(new_device_fd(t1, "/dev/f1"));
    assert_eq!(map.len(), 1);
    assert_eq!(map.get_by_name_mut("f1"), Some(&mut new_device_fd(t1, "/dev/f1")));
}

#[test]
fn test_remove_by_fd() {
    let mut map = DeviceFdMap::default();
    let t1 = 11;
    let t2 = 12;

    map.insert(new_device_fd(t1, "/dev/f1"));
    map.insert(new_device_fd(t2, "/dev/f2"));
    assert_eq!(map.remove_by_fd(t1), Some(new_device_fd(t1, "/dev/f1")));
    assert_eq!(map.remove_by_fd(t1), None);
    assert_eq!(map.len(), 1);
}

#[test]
fn device_fd_takes_the_final_path_component() {
    let d = new_device_fd(7, "/dev/input/event3");
    assert_eq!(d.name(), "event3");
    assert_eq!(d.path(), "/dev/input/event3");
    assert_eq!(d.raw_fd(), 7);
    assert!(DeviceFd::new(7, "/").is_none());
    assert!(DeviceFd::new(7, "/dev/input/..").is_none());
    assert!(DeviceFd::new(7, "").is_none());
    assert_eq!(DeviceFd::new(7, "/dev/input/event3/.").unwrap().name(), "event3");
    assert_eq!(DeviceFd::new(7, "/dev/input/event3//").unwrap().name(), "event3");
    assert!(DeviceFd::new(7, ".").is_none());
}

#[test]
fn insert_replaces_entry_of_the_same_node() {
    let mut map = DeviceFdMap::new();
    map.insert(new_device_fd(1, "/dev/input/event0"));
    map.insert(new_device_fd(2, "/dev/input/event1"));
    map.insert(new_device_fd(3, "/dev/input/event0"));
    assert_eq!(map.len(), 2);
    assert_eq!(map.get_by_name("event0").unwrap().raw_fd(), 3);
    assert_eq!(map.get_by_name("event1").unwrap().raw_fd(), 2);
}

#[test]
fn inserted_entry_is_found_by_name_and_fd() {
    let mut map = DeviceFdMap::new();
    map.insert(new_device_fd(1, "/dev/input/event0"));
    map.insert(new_device_fd(2, "/dev/input/event1"));
    map.insert(new_device_fd(2, "/dev/input/event0"));
    assert_eq!(map.len(), 1);
    assert_eq!(map.get_by_name("event0"), Some(&new_device_fd(2, "/dev/input/event0")));
    assert_eq!(map.remove_by_fd(2), Some(new_device_fd(2, "/dev/input/event0")));
    assert_eq!(map.len(), 0);
}

#[test]
fn grab_target_finds_fd_or_names_the_device() {
    let mut map = DeviceFdMap::new();
    map.insert(new_device_fd(5, "/dev/input/event4"));
    assert_eq!(grab_target(&map, "event4", "Trackball").ok(), Some(5));
    match grab_target(&map, "event9", "Trackball") {
        Err(Error::Message(m)) => assert_eq!(m, "failed to get device_fd of event9 (Trackball)"),
        other => panic!("unexpected result {:?}", other),
    }
}
