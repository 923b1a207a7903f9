use vstd::prelude::*;
use crate::text::{chars_of, is_white_space, white_space};

verus! {

/// The line that `s` ends in: the characters after its last line feed.
pub open spec fn last_line(s: Seq<char>) -> Seq<char>
    decreases s.len(),
{
    if s.len() == 0 {
        Seq::empty()
    } else if s.last() == '\n' {
        Seq::empty()
    } else {
        last_line(s.drop_last()).push(s.last())
    }
}

/// The field that line `l` ends in: its trailing run of non-whitespace characters.
pub open spec fn last_field(l: Seq<char>) -> Seq<char>
    decreases l.len(),
{
    if l.len() == 0 {
        Seq::empty()
    } else if is_white_space(l.last()) {
        Seq::empty()
    } else {
        last_field(l.drop_last()).push(l.last())
    }
}

/// The fields of `l` that some whitespace has already closed, in order.
pub open spec fn closed_fields(l: Seq<char>) -> Seq<Seq<char>>
    decreases l.len(),
{
    if l.len() == 0 {
        Seq::empty()
    } else if is_white_space(l.last()) && last_field(l.drop_last()).len() > 0 {
        closed_fields(l.drop_last()).push(last_field(l.drop_last()))
    } else {
        closed_fields(l.drop_last())
    }
}

/// The whitespace-separated fields of a line, in order.
pub open spec fn fields(l: Seq<char>) -> Seq<Seq<char>> {
    if last_field(l).len() > 0 {
        closed_fields(l).push(last_field(l))
    } else {
        closed_fields(l)
    }
}

/// The fields of each line of `s` that a line feed has ended, in order.
pub open spec fn ended_records(s: Seq<char>) -> Seq<Seq<Seq<char>>>
    decreases s.len(),
{
    if s.len() == 0 {
        Seq::empty()
    } else if s.last() == '\n' {
        ended_records(s.drop_last()).push(fields(last_line(s.drop_last())))
    } else {
        ended_records(s.drop_last())
    }
}

/// The records of a mount table: the fields of each of its lines.
pub open spec fn records(s: Seq<char>) -> Seq<Seq<Seq<char>>> {
    ended_records(s).push(fields(last_line(s)))
}

/// A mount record names `device` as its source and has a target.
pub open spec fn record_mounts(r: Seq<Seq<char>>, device: Seq<char>) -> bool {
    r.len() >= 2 && r[0] == device
}

/// The target of the first record in `recs` whose source is `device`.
pub open spec fn first_target(recs: Seq<Seq<Seq<char>>>, device: Seq<char>) -> Option<Seq<char>>
    decreases recs.len(),
{
    if recs.len() == 0 {
        None
    } else {
        match first_target(recs.drop_last(), device) {
            Some(t) => Some(t),
            None => if record_mounts(recs.last(), device) {
                Some(recs.last()[1])
            } else {
                None
            },
        }
    }
}

/// Where the mount table `table` says `device` is mounted, if anywhere.
pub open spec fn mount_point_of(table: Seq<char>, device: Seq<char>) -> Option<Seq<char>> {
    first_target(records(table), device)
}

/// The mount state that a mount table gives a device: mounted or not, and where.
pub open spec fn mount_state(table: Seq<char>, device: Seq<char>) -> (bool, Seq<char>) {
    match mount_point_of(table, device) {
        Some(t) => (true, t),
        None => (false, Seq::empty()),
    }
}

proof fn lemma_last_field_nonempty_fields(l: Seq<char>)
    ensures
        forall|k: int| 0 <= k < closed_fields(l).len() ==> #[trigger] closed_fields(l)[k].len() > 0,
    decreases l.len(),
{
    if l.len() > 0 {
        let p = l.drop_last();
        lemma_last_field_nonempty_fields(p);
        assert forall|k: int| 0 <= k < closed_fields(l).len() implies #[trigger] closed_fields(l)[k].len() > 0 by {
            if is_white_space(l.last()) && last_field(p).len() > 0 && k == closed_fields(p).len() {
            } else {
                assert(closed_fields(l)[k] == closed_fields(p)[k]);
            }
        }
    }
}

/// Every field of a line holds at least one character.
pub proof fn lemma_fields_nonempty(l: Seq<char>)
    ensures
        forall|k: int| 0 <= k < fields(l).len() ==> #[trigger] fields(l)[k].len() > 0,
{
    lemma_last_field_nonempty_fields(l);
}

proof fn lemma_ended_records_nonempty_fields(s: Seq<char>)
    ensures
        forall|i: int, k: int|
            0 <= i < ended_records(s).len() && 0 <= k < ended_records(s)[i].len()
                ==> #[trigger] ended_records(s)[i][k].len() > 0,
    decreases s.len(),
{
    if s.len() > 0 {
        let p = s.drop_last();
        lemma_ended_records_nonempty_fields(p);
        lemma_fields_nonempty(last_line(p));
        assert forall|i: int, k: int|
            0 <= i < ended_records(s).len() && 0 <= k < ended_records(s)[i].len()
                implies #[trigger] ended_records(s)[i][k].len() > 0 by {
            if s.last() == '\n' && i == ended_records(p).len() {
                assert(ended_records(s)[i] == fields(last_line(p)));
            } else {
                assert(ended_records(s)[i] == ended_records(p)[i]);
            }
        }
    }
}

proof fn lemma_first_target_nonempty(recs: Seq<Seq<Seq<char>>>, device: Seq<char>)
    requires
        forall|i: int, k: int|
            0 <= i < recs.len() && 0 <= k < recs[i].len() ==> #[trigger] recs[i][k].len() > 0,
    ensures
        first_target(recs, device) matches Some(t) ==> t.len() > 0,
    decreases recs.len(),
{
    if recs.len() > 0 {
        lemma_first_target_nonempty(recs.drop_last(), device);
        assert(recs.last() == recs[recs.len() - 1]);
    }
}

/// A mount point read from a mount table is never empty.
pub proof fn lemma_mount_point_nonempty(table: Seq<char>, device: Seq<char>)
    ensures
        mount_point_of(table, device) matches Some(t) ==> t.len() > 0,
{
    lemma_ended_records_nonempty_fields(table);
    lemma_fields_nonempty(last_line(table));
    let recs = records(table);
    assert forall|i: int, k: int| 0 <= i < recs.len() && 0 <= k < recs[i].len() implies #[trigger] recs[i][k].len() > 0 by {
        if i < ended_records(table).len() {
            assert(recs[i] == ended_records(table)[i]);
        } else {
            assert(recs[i] == fields(last_line(table)));
        }
    }
    lemma_first_target_nonempty(recs, device);
}

/// Whether `v[a..b]` holds exactly the characters of `d`.
fn range_equals(v: &Vec<char>, a: usize, b: usize, d: &Vec<char>) -> (r: bool)
    requires
        a <= b <= v.len(),
    ensures
        r == (v@.subrange(a as int, b as int) == d@),
{
    if b - a != d.len() {
        proof {
            assert(v@.subrange(a as int, b as int).len() != d@.len());
        }
        return false;
    }
    let mut k: usize = 0;
    while k < d.len()
        invariant
            a <= b <= v.len(),
            b - a == d.len(),
            k <= d.len(),
            forall|j: int| 0 <= j < k ==> v@[a + j] == d@[j],
        decreases d.len() - k,
    {
        if v[a + k] != d[k] {
            proof {
                assert(v@.subrange(a as int, b as int)[k as int] != d@[k as int]);
            }
            return false;
        }
        k = k + 1;
    }
    assert(v@.subrange(a as int, b as int) =~= d@);
    true
}

/// Scanning state for the line being read: how many of its fields are closed,
/// whether one is open and where it starts, and where its first two fields lie.
struct LineScan {
    closed: usize,
    in_field: bool,
    start: usize,
    first: (usize, usize),
    second: (usize, usize),
}

impl LineScan {
    /// The state describes `cur`, the line that ends just before position `i` of `v`.
    spec fn describes(self, v: Seq<char>, i: int, cur: Seq<char>) -> bool {
        &&& self.closed <= i
        &&& self.start <= i
        &&& self.in_field == (last_field(cur).len() > 0)
        &&& self.in_field ==> last_field(cur) == v.subrange(self.start as int, i)
        &&& self.closed == closed_fields(cur).len()
        &&& self.closed >= 1 ==> self.first.0 <= self.first.1 <= i
            && closed_fields(cur)[0] == v.subrange(self.first.0 as int, self.first.1 as int)
        &&& self.closed >= 2 ==> self.second.0 <= self.second.1 <= i
            && closed_fields(cur)[1] == v.subrange(self.second.0 as int, self.second.1 as int)
    }

    /// The state at the start of a line that begins at position `i`.
    fn new(i: usize) -> (r: LineScan)
        ensures
            r.closed == 0 && r.start == i && !r.in_field,
    {
        LineScan { closed: 0, in_field: false, start: i, first: (i, i), second: (i, i) }
    }

    /// Reads `v[i]`, a character other than a line feed.
    fn step(&mut self, v: &Vec<char>, i: usize, Ghost(cur): Ghost<Seq<char>>)
        requires
            i < v.len(),
            v@[i as int] != '\n',
            old(self).describes(v@, i as int, cur),
        ensures
            final(self).describes(v@, i + 1, cur.push(v@[i as int])),
    {
        let c = v[i];
        let ghost next = cur.push(c);
        assert(next.drop_last() =~= cur);
        if white_space(c) {
            if self.in_field {
                if self.closed == 0 {
                    self.first = (self.start, i);
                } else if self.closed == 1 {
                    self.second = (self.start, i);
                }
                self.closed = self.closed + 1;
            }
            self.in_field = false;
        } else {
            if !self.in_field {
                self.start = i;
                self.in_field = true;
            }
        }
        proof {
            if self.in_field {
                assert(v@.subrange(self.start as int, i + 1) =~= last_field(next));
            }
        }
    }

    /// Where the second field of the line lies, when its first field is `d`.
    fn target(&self, v: &Vec<char>, i: usize, d: &Vec<char>, Ghost(cur): Ghost<Seq<char>>) -> (r: Option<(usize, usize)>)
        requires
            i <= v.len(),
            self.describes(v@, i as int, cur),
        ensures
            r is Some <==> record_mounts(fields(cur), d@),
            r matches Some(p) ==> p.0 <= p.1 <= i && v@.subrange(p.0 as int, p.1 as int) == fields(cur)[1],
    {
        let (f0, f1): ((usize, usize), (usize, usize));
        if self.closed >= 2 {
            f0 = self.first;
            f1 = self.second;
        } else if self.closed == 1 && self.in_field {
            f0 = self.first;
            f1 = (self.start, i);
        } else {
            return None;
        }
        if range_equals(v, f0.0, f0.1, d) {
            Some(f1)
        } else {
            None
        }
    }
}

/// Looks `device_path` up in the text of a mount table: the first line whose
/// first field is the device and that has a second field gives its mount point.
/// A device that no line names is reported as not mounted, with an empty point.
pub fn get_mount_info(mount_table: &str, device_path: &str) -> (r: (bool, String))
    ensures
        (r.0, r.1@) == mount_state(mount_table@, device_path@),
        r.0 <==> r.1@.len() > 0,
{
    let v = chars_of(mount_table);
    let d = chars_of(device_path);
    let n = v.len();
    let mut found = false;
    let mut ra: usize = 0;
    let mut rb: usize = 0;
    let mut ls = LineScan::new(0);
    let mut i: usize = 0;
    assert(v@.take(0) =~= Seq::<char>::empty());
    while i < n
        invariant
            n == v.len(),
            i <= n,
            ls.describes(v@, i as int, last_line(v@.take(i as int))),
            match first_target(ended_records(v@.take(i as int)), d@) {
                Some(t) => found && ra <= rb <= n && v@.subrange(ra as int, rb as int) == t,
                None => !found,
            },
        decreases n - i,
    {
        let ghost pre = v@.take(i as int);
        let ghost cur = last_line(pre);
        assert(v@.take(i + 1).drop_last() =~= pre);
        if v[i] == '\n' {
            if !found {
                match ls.target(&v, i, &d, Ghost(cur)) {
                    Some(p) => {
                        found = true;
                        ra = p.0;
                        rb = p.1;
                    },
                    None => {},
                }
            }
            ls = LineScan::new(i + 1);
            proof {
                let recs = ended_records(v@.take(i + 1));
                assert(recs.drop_last() =~= ended_records(pre));
            }
        } else {
            ls.step(&v, i, Ghost(cur));
        }
        i = i + 1;
    }
    assert(v@.take(n as int) =~= v@);
    if !found {
        match ls.target(&v, n, &d, Ghost(last_line(v@))) {
            Some(p) => {
                found = true;
                ra = p.0;
                rb = p.1;
            },
            None => {},
        }
    }
    proof {
        assert(records(v@).drop_last() =~= ended_records(v@));
        lemma_mount_point_nonempty(v@, d@);
    }
    if found {
        let t = mount_table.substring_char(ra, rb);
        (true, t.to_owned())
    } else {
        (false, String::new())
    }
}

} // verus!
