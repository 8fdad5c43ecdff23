use vstd::prelude::*;

verus! {

/// The characters of `p` after its last `/`, or all of `p` when it holds none.
pub open spec fn last_part(p: Seq<char>) -> Seq<char>
    decreases p.len(),
{
    if p.len() == 0 || p.last() == '/' {
        seq![]
    } else {
        last_part(p.drop_last()).push(p.last())
    }
}

/// The final component of a Unix path: trailing `/` and `.` components are passed over,
/// and a final `..`, or no component at all, gives none.
pub open spec fn file_name_of(p: Seq<char>) -> Option<Seq<char>>
    decreases p.len(),
{
    if p.len() == 0 {
        None
    } else if p.last() == '/' {
        file_name_of(p.drop_last())
    } else if last_part(p) == seq!['.'] {
        file_name_of(p.drop_last())
    } else if last_part(p) == seq!['.', '.'] {
        None
    } else {
        Some(last_part(p))
    }
}

/// Relies on std's `Path::file_name`, which on Unix gives the final component of the
/// path: trailing slashes and `.` components do not count, and a path that ends in `..`
/// or has no component gives none. The component is a part of the given text, so turning
/// it back into text cannot fail.
#[verifier::external_body]
fn path_file_name(path: &str) -> (r: Option<String>)
    ensures
        match r {
            Some(n) => file_name_of(path@) == Some(n@),
            None => file_name_of(path@) is None,
        },
{
    match std::path::Path::new(path).file_name() {
        Some(name) => match name.to_str() {
            Some(s) => Some(s.to_owned()),
            None => None,
        },
        None => None,
    }
}

/// An open device node: its file descriptor, its path and the path's final component.
#[derive(Debug, PartialEq, Eq)]
pub struct DeviceFd {
    raw_fd: i32,
    path: String,
    name: String,
}

pub struct DeviceFdView {
    pub fd: i32,
    pub path: Seq<char>,
    pub name: Seq<char>,
}

impl View for DeviceFd {
    type V = DeviceFdView;

    closed spec fn view(&self) -> DeviceFdView {
        DeviceFdView { fd: self.raw_fd, path: self.path@, name: self.name@ }
    }
}

impl DeviceFd {
    /// Records that `fd` is open on `path`; fails when the path has no final component.
    pub fn new(fd: i32, path: &str) -> (r: Option<DeviceFd>)
        ensures
            r is Some <==> file_name_of(path@) is Some,
            r is Some ==> r->0@ == (DeviceFdView {
                fd,
                path: path@,
                name: file_name_of(path@)->0,
            }),
    {
        match path_file_name(path) {
            Some(name) => Some(DeviceFd { raw_fd: fd, path: path.to_owned(), name }),
            None => None,
        }
    }

    pub fn raw_fd(&self) -> (r: i32)
        ensures
            r == self@.fd,
    {
        self.raw_fd
    }

    pub fn path(&self) -> (r: &str)
        ensures
            r@ == self@.path,
    {
        &self.path
    }

    pub fn name(&self) -> (r: &str)
        ensures
            r@ == self@.name,
    {
        &self.name
    }
}

/// No two entries share a file descriptor, and no two share a name.
pub open spec fn distinct_keys(s: Seq<DeviceFdView>) -> bool {
    forall|i: int, j: int|
        0 <= i < j < s.len() ==> s[i].fd != s[j].fd && s[i].name != s[j].name
}

pub open spec fn collides(d: DeviceFdView, fd: i32, name: Seq<char>) -> bool {
    d.fd == fd || d.name == name
}

/// The entries of `s` that share neither `fd` nor `name`, in their order.
pub open spec fn without_collisions(s: Seq<DeviceFdView>, fd: i32, name: Seq<char>) -> Seq<
    DeviceFdView,
>
    decreases s.len(),
{
    if s.len() == 0 {
        seq![]
    } else {
        let rest = without_collisions(s.drop_last(), fd, name);
        if collides(s.last(), fd, name) {
            rest
        } else {
            rest.push(s.last())
        }
    }
}

/// The entries after `e` is inserted: every entry that shares its file descriptor or its
/// name goes, then `e` is appended.
pub open spec fn inserted(s: Seq<DeviceFdView>, e: DeviceFdView) -> Seq<DeviceFdView> {
    without_collisions(s, e.fd, e.name).push(e)
}

/// The entry named `name`, if there is one.
pub open spec fn find_by_name(s: Seq<DeviceFdView>, name: Seq<char>) -> Option<DeviceFdView> {
    if exists|i: int| 0 <= i < s.len() && #[trigger] s[i].name == name {
        Some(s[choose|i: int| 0 <= i < s.len() && #[trigger] s[i].name == name])
    } else {
        None
    }
}

/// The position of the entry that holds `fd`, if there is one.
pub open spec fn index_of_fd(s: Seq<DeviceFdView>, fd: i32) -> Option<int> {
    if exists|i: int| 0 <= i < s.len() && #[trigger] s[i].fd == fd {
        Some(choose|i: int| 0 <= i < s.len() && #[trigger] s[i].fd == fd)
    } else {
        None
    }
}

/// The entry that holds `fd`, if there is one.
pub open spec fn find_by_fd(s: Seq<DeviceFdView>, fd: i32) -> Option<DeviceFdView> {
    match index_of_fd(s, fd) {
        Some(i) => Some(s[i]),
        None => None,
    }
}

/// The open device nodes, keyed both by file descriptor and by name.
pub struct DeviceFdMap {
    values: Vec<DeviceFd>,
}

impl View for DeviceFdMap {
    type V = Seq<DeviceFdView>;

    closed spec fn view(&self) -> Seq<DeviceFdView> {
        self.values@.map_values(|d: DeviceFd| d@)
    }
}

proof fn lemma_without_collisions_keeps(s: Seq<DeviceFdView>, fd: i32, name: Seq<char>)
    ensures
        forall|k: int|
            0 <= k < without_collisions(s, fd, name).len() ==> !collides(
                #[trigger] without_collisions(s, fd, name)[k],
                fd,
                name,
            ) && exists|m: int| 0 <= m < s.len() && s[m] == without_collisions(s, fd, name)[k],
        without_collisions(s, fd, name).len() <= s.len(),
    decreases s.len(),
{
    if s.len() > 0 {
        lemma_without_collisions_keeps(s.drop_last(), fd, name);
        let rest = without_collisions(s.drop_last(), fd, name);
        assert forall|k: int|
            0 <= k < without_collisions(s, fd, name).len() implies !collides(
            #[trigger] without_collisions(s, fd, name)[k],
            fd,
            name,
        ) && exists|m: int| 0 <= m < s.len() && s[m] == without_collisions(s, fd, name)[k] by {
            if k < rest.len() {
                let m = choose|m: int| 0 <= m < s.drop_last().len() && s.drop_last()[m] == rest[k];
                assert(s[m] == without_collisions(s, fd, name)[k]);
            } else {
                assert(s[s.len() - 1] == without_collisions(s, fd, name)[k]);
            }
        }
    }
}

/// Filtering keeps distinct keys distinct.
proof fn lemma_without_collisions_distinct(s: Seq<DeviceFdView>, fd: i32, name: Seq<char>)
    requires
        distinct_keys(s),
    ensures
        distinct_keys(without_collisions(s, fd, name)),
    decreases s.len(),
{
    if s.len() > 0 {
        let t = s.drop_last();
        assert(distinct_keys(t));
        lemma_without_collisions_distinct(t, fd, name);
        lemma_without_collisions_keeps(t, fd, name);
        let rest = without_collisions(t, fd, name);
        if !collides(s.last(), fd, name) {
            let w = rest.push(s.last());
            assert forall|i: int, j: int| 0 <= i < j < w.len() implies w[i].fd != w[j].fd
                && w[i].name != w[j].name by {
                if j == w.len() - 1 {
                    let m = choose|m: int| 0 <= m < t.len() && t[m] == rest[i];
                    assert(s[m] == w[i]);
                    assert(s[s.len() - 1] == w[j]);
                }
            }
        }
    }
}

/// An insertion removes at most two entries: one holding the file descriptor and one
/// holding the name.
proof fn lemma_without_collisions_len(s: Seq<DeviceFdView>, fd: i32, name: Seq<char>)
    requires
        distinct_keys(s),
    ensures
        without_collisions(s, fd, name).len() + (if exists|i: int|
            0 <= i < s.len() && #[trigger] s[i].fd == fd {
            1int
        } else {
            0int
        }) + (if exists|i: int| 0 <= i < s.len() && #[trigger] s[i].name == name {
            1int
        } else {
            0int
        }) >= s.len(),
    decreases s.len(),
{
    if s.len() > 0 {
        let t = s.drop_last();
        assert(distinct_keys(t));
        lemma_without_collisions_len(t, fd, name);
        let x = s.last();
        if x.fd == fd {
            assert(s[s.len() - 1].fd == fd);
            assert(!exists|i: int| 0 <= i < t.len() && #[trigger] t[i].fd == fd) by {
                if exists|i: int| 0 <= i < t.len() && #[trigger] t[i].fd == fd {
                    let i = choose|i: int| 0 <= i < t.len() && #[trigger] t[i].fd == fd;
                    assert(s[i].fd == s[s.len() - 1].fd);
                }
            }
        } else if x.name == name {
            assert(s[s.len() - 1].name == name);
            assert(!exists|i: int| 0 <= i < t.len() && #[trigger] t[i].name == name) by {
                if exists|i: int| 0 <= i < t.len() && #[trigger] t[i].name == name {
                    let i = choose|i: int| 0 <= i < t.len() && #[trigger] t[i].name == name;
                    assert(s[i].name == s[s.len() - 1].name);
                }
            }
        }
        if exists|i: int| 0 <= i < t.len() && #[trigger] t[i].fd == fd {
            let i = choose|i: int| 0 <= i < t.len() && #[trigger] t[i].fd == fd;
            assert(s[i].fd == fd);
        }
        if exists|i: int| 0 <= i < t.len() && #[trigger] t[i].name == name {
            let i = choose|i: int| 0 <= i < t.len() && #[trigger] t[i].name == name;
            assert(s[i].name == name);
        }
    }
}

/// After `insert(e)` on a map with distinct keys, the keys stay distinct, looking up
/// `e`'s name or `e`'s file descriptor finds `e`, and at most two of the earlier entries
/// are gone.
pub proof fn lemma_insert_then_find(s: Seq<DeviceFdView>, e: DeviceFdView)
    requires
        distinct_keys(s),
    ensures
        distinct_keys(inserted(s, e)),
        find_by_name(inserted(s, e), e.name) == Some(e),
        find_by_fd(inserted(s, e), e.fd) == Some(e),
        inserted(s, e).len() + 2 >= s.len() + 1,
{
    let w = without_collisions(s, e.fd, e.name);
    let r = inserted(s, e);
    lemma_without_collisions_distinct(s, e.fd, e.name);
    lemma_without_collisions_keeps(s, e.fd, e.name);
    lemma_without_collisions_len(s, e.fd, e.name);
    assert forall|i: int, j: int| 0 <= i < j < r.len() implies r[i].fd != r[j].fd && r[i].name
        != r[j].name by {
        if j == r.len() - 1 {
            assert(!collides(w[i], e.fd, e.name));
        }
    }
    let last = r.len() - 1;
    assert(r[last].name == e.name);
    assert(r[last].fd == e.fd);
    let i = choose|i: int| 0 <= i < r.len() && #[trigger] r[i].name == e.name;
    if i != last {
        assert(!collides(w[i], e.fd, e.name));
    }
    let k = choose|i: int| 0 <= i < r.len() && #[trigger] r[i].fd == e.fd;
    if k != last {
        assert(!collides(w[k], e.fd, e.name));
    }
}

impl DeviceFdMap {
    /// No two entries share a file descriptor; no two entries share a name.
    pub open spec fn wf(&self) -> bool {
        distinct_keys(self@)
    }

    pub fn new() -> (r: DeviceFdMap)
        ensures
            r@ == Seq::<DeviceFdView>::empty(),
            r.wf(),
    {
        let r = DeviceFdMap { values: Vec::new() };
        assert(r@ =~= Seq::<DeviceFdView>::empty());
        r
    }

    pub fn len(&self) -> (r: usize)
        ensures
            r == self@.len(),
    {
        self.values.len()
    }

    /// Removes every entry that shares `device_fd`'s file descriptor or name, then
    /// appends `device_fd`.
    pub fn insert(&mut self, device_fd: DeviceFd)
        requires
            old(self).wf(),
        ensures
            final(self)@ == inserted(old(self)@, device_fd@),
            final(self).wf(),
    {
        let ghost old_s = self@;
        let ghost fd = device_fd@.fd;
        let ghost name = device_fd@.name;
        let mut i: usize = 0;
        let ghost mut j: int = 0;
        while i < self.values.len()
            invariant
                0 <= i <= j <= old_s.len(),
                self@.len() == i + (old_s.len() - j),
                self@.subrange(0, i as int) == without_collisions(old_s.subrange(0, j), fd, name),
                self@.subrange(i as int, self@.len() as int) == old_s.subrange(j, old_s.len() as int),
                fd == device_fd@.fd,
                name == device_fd@.name,
            decreases self@.len() - i,
        {
            let ghost before = self@;
            assert(before[i as int] == before.subrange(i as int, before.len() as int)[0]);
            assert(old_s[j] == old_s.subrange(j, old_s.len() as int)[0]);
            assert(old_s.subrange(0, j + 1).drop_last() =~= old_s.subrange(0, j));
            assert(old_s.subrange(0, j + 1).last() == old_s[j]);
            let value = &self.values[i];
            assert(value@ == old_s[j]);
            if value.raw_fd == device_fd.raw_fd || value.name == device_fd.name {
                self.values.remove(i);
                proof {
                    assert(self@ =~= before.remove(i as int));
                    assert(self@.subrange(0, i as int) =~= before.subrange(0, i as int));
                    assert forall|k: int| 0 <= k < self@.len() - i implies self@.subrange(
                        i as int,
                        self@.len() as int,
                    )[k] == old_s.subrange(j + 1, old_s.len() as int)[k] by {
                        assert(before.subrange(i as int, before.len() as int)[k + 1] == before[i
                            + k + 1]);
                        assert(old_s.subrange(j, old_s.len() as int)[k + 1] == old_s[j + k + 1]);
                    }
                    assert(self@.subrange(i as int, self@.len() as int) =~= old_s.subrange(
                        j + 1,
                        old_s.len() as int,
                    ));
                    j = j + 1;
                }
            } else {
                i = i + 1;
                proof {
                    assert(self@.subrange(0, i as int) =~= before.subrange(0, i - 1).push(
                        old_s[j],
                    ));
                    assert forall|k: int| 0 <= k < self@.len() - i implies self@.subrange(
                        i as int,
                        self@.len() as int,
                    )[k] == old_s.subrange(j + 1, old_s.len() as int)[k] by {
                        assert(before.subrange((i - 1) as int, before.len() as int)[k + 1]
                            == before[i + k]);
                        assert(old_s.subrange(j, old_s.len() as int)[k + 1] == old_s[j + k + 1]);
                    }
                    assert(self@.subrange(i as int, self@.len() as int) =~= old_s.subrange(
                        j + 1,
                        old_s.len() as int,
                    ));
                    j = j + 1;
                }
            }
        }
        assert(old_s.subrange(0, j) =~= old_s);
        assert(self@ =~= self@.subrange(0, i as int));
        self.values.push(device_fd);
        proof {
            assert(self@ =~= inserted(old_s, device_fd@));
            lemma_insert_then_find(old_s, device_fd@);
        }
    }

    /// The entry named `name`; by the map's invariant there is at most one.
    pub fn get_by_name(&self, name: &str) -> (r: Option<&DeviceFd>)
        requires
            self.wf(),
        ensures
            match r {
                Some(d) => find_by_name(self@, name@) == Some(d@),
                None => find_by_name(self@, name@) is None,
            },
    {
        match self.index_of_name(name) {
            Some(i) => Some(&self.values[i]),
            None => None,
        }
    }

    /// The entry named `name`, to be changed in place; by the map's invariant there is at
    /// most one.
    pub fn get_by_name_mut(&mut self, name: &str) -> (r: Option<&mut DeviceFd>)
        requires
            old(self).wf(),
        ensures
            match r {
                Some(d) => find_by_name(old(self)@, name@) == Some(d@) && exists|i: int|
                    0 <= i < old(self)@.len() && old(self)@[i] == d@ && final(self)@ == old(
                        self,
                    )@.update(i, (*final(d))@),
                None => find_by_name(old(self)@, name@) is None && final(self)@ == old(self)@,
            },
    {
        match self.index_of_name(name) {
            Some(i) => {
                let r = &mut self.values[i];
                Some(r)
            },
            None => None,
        }
    }

    fn index_of_name(&self, name: &str) -> (r: Option<usize>)
        requires
            self.wf(),
        ensures
            match r {
                Some(i) => i < self@.len() && self@[i as int].name == name@ && find_by_name(
                    self@,
                    name@,
                ) == Some(self@[i as int]),
                None => find_by_name(self@, name@) is None,
            },
    {
        let key = name.to_owned();
        let mut i: usize = 0;
        while i < self.values.len()
            invariant
                i <= self@.len(),
                self.wf(),
                key@ == name@,
                forall|k: int| 0 <= k < i ==> #[trigger] self@[k].name != name@,
            decreases self@.len() - i,
        {
            if self.values[i].name == key {
                proof {
                    assert(self@[i as int] == self.values@[i as int]@);
                    assert(self@[i as int].name == name@);
                    let c = choose|c: int| 0 <= c < self@.len() && #[trigger] self@[c].name == name@;
                    assert(c == i) by {
                        if c != i {
                            if c < i {
                                assert(self@[c].name != name@);
                            } else {
                                assert(self@[i as int].name != self@[c].name);
                            }
                        }
                    }
                }
                return Some(i);
            }
            assert(self@[i as int] == self.values@[i as int]@);
            i = i + 1;
        }
        None
    }

    /// Removes and returns the entry that holds `fd`, if there is one.
    pub fn remove_by_fd(&mut self, fd: i32) -> (r: Option<DeviceFd>)
        requires
            old(self).wf(),
        ensures
            final(self).wf(),
            match r {
                Some(d) => find_by_fd(old(self)@, fd) == Some(d@) && final(self)@ == old(self)@.remove(
                    index_of_fd(old(self)@, fd)->0,
                ),
                None => find_by_fd(old(self)@, fd) is None && final(self)@ == old(self)@,
            },
    {
        let ghost s = self@;
        let mut i: usize = 0;
        while i < self.values.len()
            invariant
                i <= self@.len(),
                self@ == s,
                s == old(self)@,
                self.wf(),
                forall|k: int| 0 <= k < i ==> #[trigger] self@[k].fd != fd,
            decreases self@.len() - i,
        {
            if self.values[i].raw_fd == fd {
                proof {
                    assert(self@[i as int] == self.values@[i as int]@);
                    assert(s[i as int].fd == fd);
                    let c = choose|c: int| 0 <= c < s.len() && #[trigger] s[c].fd == fd;
                    assert(c == i) by {
                        if c != i {
                            if c < i {
                                assert(s[c].fd != fd);
                            } else {
                                assert(s[i as int].fd != s[c].fd);
                            }
                        }
                    }
                }
                let d = self.values.remove(i);
                proof {
                    assert(d@ == s[i as int]);
                    assert(index_of_fd(s, fd) == Some(i as int));
                    assert(find_by_fd(s, fd) == Some(d@));
                    assert(self@ =~= s.remove(i as int));
                    assert forall|a: int, b: int|
                        0 <= a < b < self@.len() implies self@[a].fd != self@[b].fd
                        && self@[a].name != self@[b].name by {
                        let a0 = if a < i {
                            a
                        } else {
                            a + 1
                        };
                        let b0 = if b < i {
                            b
                        } else {
                            b + 1
                        };
                        assert(self@[a] == s[a0] && self@[b] == s[b0]);
                    }
                }
                return Some(d);
            }
            assert(self@[i as int] == self.values@[i as int]@);
            i = i + 1;
        }
        None
    }
}

impl Default for DeviceFdMap {
    fn default() -> (r: DeviceFdMap)
        ensures
            r@ == Seq::<DeviceFdView>::empty(),
            r.wf(),
    {
        DeviceFdMap::new()
    }
}

} // verus!
