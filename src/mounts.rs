use vstd::prelude::*;

verus! {

/// Whether a byte is white space within a line (space, tab, vertical tab,
/// form feed, carriage return).
pub open spec fn is_blank(b: u8) -> bool {
    b == 0x20u8 || b == 0x09u8 || b == 0x0Bu8 || b == 0x0Cu8 || b == 0x0Du8
}

/// Whether a byte ends a field: white space or the end of the line.
pub open spec fn ends_field(b: u8) -> bool {
    is_blank(b) || b == 0x0Au8
}

/// The first position from `i` on that is not white space within a line.
pub open spec fn skip_blanks(t: Seq<u8>, i: int) -> int
    decreases t.len() - i,
{
    if i < 0 || i >= t.len() || !is_blank(t[i]) {
        i
    } else {
        skip_blanks(t, i + 1)
    }
}

/// The first position from `i` on that ends a field.
pub open spec fn field_end(t: Seq<u8>, i: int) -> int
    decreases t.len() - i,
{
    if i < 0 || i >= t.len() || ends_field(t[i]) {
        i
    } else {
        field_end(t, i + 1)
    }
}

/// Whether the line of `t` that starts at `p` has at least two
/// whitespace-separated fields, the first of which is `d`.
pub open spec fn line_names(t: Seq<u8>, p: int, d: Seq<u8>) -> bool {
    let s = skip_blanks(t, p);
    let e = field_end(t, s);
    let s2 = skip_blanks(t, e);
    &&& 0 <= p <= t.len()
    &&& p == 0 || t[p - 1] == 0x0Au8
    &&& t.subrange(s, e) == d
    &&& s2 < t.len()
    &&& t[s2] != 0x0Au8
}

/// Whether some line of the mount table `t` has at least two
/// whitespace-separated fields, the first of which is the device `d`.
pub open spec fn mounted_in(t: Seq<u8>, d: Seq<u8>) -> bool {
    exists|p: int| line_names(t, p, d)
}

/// The first position from `i` on that is not white space within a line.
fn skip_blanks_at(t: &Vec<u8>, i: usize) -> (r: usize)
    requires
        i <= t@.len(),
    ensures
        r == skip_blanks(t@, i as int),
        i <= r <= t@.len(),
{
    let n = t.len();
    let mut j = i;
    while j < n && (t[j] == 0x20u8 || t[j] == 0x09u8 || t[j] == 0x0Bu8 || t[j] == 0x0Cu8 || t[j] == 0x0Du8)
        invariant
            n == t@.len(),
            i <= j <= n,
            skip_blanks(t@, i as int) == skip_blanks(t@, j as int),
        decreases n - j,
    {
        j += 1;
    }
    j
}

/// The first position from `i` on that ends a field.
fn field_end_at(t: &Vec<u8>, i: usize) -> (r: usize)
    requires
        i <= t@.len(),
    ensures
        r == field_end(t@, i as int),
        i <= r <= t@.len(),
{
    let n = t.len();
    let mut j = i;
    while j < n && !(t[j] == 0x20u8 || t[j] == 0x09u8 || t[j] == 0x0Bu8 || t[j] == 0x0Cu8 || t[j] == 0x0Du8
        || t[j] == 0x0Au8)
        invariant
            n == t@.len(),
            i <= j <= n,
            field_end(t@, i as int) == field_end(t@, j as int),
        decreases n - j,
    {
        j += 1;
    }
    j
}

/// Whether the `e - s` bytes of `t` from `s` on are `d`.
fn bytes_are(t: &Vec<u8>, s: usize, e: usize, d: &Vec<u8>) -> (r: bool)
    requires
        s <= e <= t@.len(),
    ensures
        r == (t@.subrange(s as int, e as int) == d@),
{
    if e - s != d.len() {
        return false;
    }
    let n = d.len();
    let mut i: usize = 0;
    while i < n
        invariant
            n == d@.len(),
            e - s == n,
            e <= t@.len(),
            i <= n,
            forall|j: int| 0 <= j < i ==> t@[s + j] == d@[j],
        decreases n - i,
    {
        if t[s + i] != d[i] {
            assert(t@.subrange(s as int, e as int)[i as int] != d@[i as int]);
            return false;
        }
        i += 1;
    }
    assert(t@.subrange(s as int, e as int) =~= d@);
    true
}

/// Whether the mount table `table` (the text of `/proc/mounts`) has a line
/// with at least two whitespace-separated fields whose first is `device`.
pub fn device_is_mounted(table: &Vec<u8>, device: &Vec<u8>) -> (r: bool)
    ensures
        r == mounted_in(table@, device@),
{
    let n = table.len();
    let mut p: usize = 0;
    while p <= n
        invariant
            n == table@.len(),
            forall|q: int| 0 <= q < p ==> !line_names(table@, q, device@),
        decreases n + 1 - p,
    {
        if p == 0 || table[p - 1] == 0x0Au8 {
            let s = skip_blanks_at(table, p);
            let e = field_end_at(table, s);
            let s2 = skip_blanks_at(table, e);
            if bytes_are(table, s, e, device) && s2 < n && table[s2] != 0x0Au8 {
                assert(line_names(table@, p as int, device@));
                return true;
            }
        }
        if p == n {
            assert forall|q: int| !line_names(table@, q, device@) by {}
            return false;
        }
        p += 1;
    }
    false
}

} // verus!
