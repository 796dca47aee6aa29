//! Marketing names of AMD GPUs from `lspci` output: which lines describe an
//! AMD display controller, the name each line gives, and the vendor prefix
//! shared by all names, which is cut off.

use vstd::prelude::*;
use crate::sensors::{SensorInfo, SensorSource, SensorSourceView, Unit};
use crate::sysfs::{gpu_name_from, lookup_gpu_name, numbered_name, numbered_name_spec, GpuName};
use crate::text::{
    chars_eq, chars_to_string, contains, contains_seq, copy_string, dec, find, first_occurrence,
    lines_of, lines_spec, lowercase, push_all, push_dec, push_str, str_chars, texts_view,
    to_lowercase, trim_chars, trim_spec,
};

verus! {

/// A GPU name entry as values: (PCI address, name).
pub type GpuEntry = (Seq<char>, Seq<char>);

/// The values of a list of GPU names.
pub open spec fn gpu_entries_view(g: Seq<GpuName>) -> Seq<GpuEntry> {
    g.map_values(|x: GpuName| (x.pci_id@, x.name@))
}

/// Whether no PCI address occurs twice.
pub open spec fn keys_unique(m: Seq<GpuEntry>) -> bool {
    forall|i: int, j: int| 0 <= i < j < m.len() ==> #[trigger] m[i].0 != #[trigger] m[j].0
}

/// Length of the common prefix of `a` and `b`, counted on from `i`.
pub open spec fn common_len_from(a: Seq<char>, b: Seq<char>, i: int) -> int
    decreases a.len() - i,
{
    if 0 <= i < a.len() && i < b.len() && a[i] == b[i] {
        common_len_from(a, b, i + 1)
    } else {
        i
    }
}

/// Length of the longest common prefix of `a` and `b`.
pub open spec fn common_len(a: Seq<char>, b: Seq<char>) -> int {
    common_len_from(a, b, 0)
}

/// The prefix shared by the names `names[0]` to `names[k]`: the first name,
/// cut down name after name to what it has in common with the next.
pub open spec fn shared_prefix(names: Seq<GpuEntry>, k: int) -> Seq<char>
    decreases k,
{
    if k <= 0 {
        names[0].1
    } else {
        let p = shared_prefix(names, k - 1);
        p.take(common_len(p, names[k].1))
    }
}

/// The names with the prefix that all of them share (when there are two or
/// more and it is not empty) cut off, and the rest trimmed of whitespace.
pub open spec fn cleaned_names(m: Seq<GpuEntry>) -> Seq<GpuEntry> {
    if m.len() <= 1 {
        m
    } else {
        let p = shared_prefix(m, m.len() - 1);
        if p.len() == 0 {
            m
        } else {
            m.map_values(|e: GpuEntry| (e.0, trim_spec(e.1.skip(p.len() as int))))
        }
    }
}

proof fn lemma_common_len(a: Seq<char>, b: Seq<char>, i: int)
    requires
        0 <= i <= a.len(),
        i <= b.len(),
        forall|j: int| 0 <= j < i ==> a[j] == b[j],
    ensures
        i <= common_len_from(a, b, i) <= a.len(),
        common_len_from(a, b, i) <= b.len(),
        a.take(common_len_from(a, b, i)).is_prefix_of(b),
    decreases a.len() - i,
{
    if 0 <= i < a.len() && i < b.len() && a[i] == b[i] {
        lemma_common_len(a, b, i + 1);
    } else {
        assert(a.take(i) =~= b.take(i));
    }
}

proof fn lemma_shared_prefix(names: Seq<GpuEntry>, k: int)
    requires
        0 <= k < names.len(),
    ensures
        forall|j: int| 0 <= j <= k ==> shared_prefix(names, k).is_prefix_of(#[trigger] names[j].1),
    decreases k,
{
    if k > 0 {
        lemma_shared_prefix(names, k - 1);
        let p = shared_prefix(names, k - 1);
        lemma_common_len(p, names[k].1, 0);
        let q = p.take(common_len(p, names[k].1));
        assert forall|j: int| 0 <= j <= k implies q.is_prefix_of(#[trigger] names[j].1) by {
            if j < k {
                assert(p.is_prefix_of(names[j].1));
                assert(q =~= names[j].1.take(q.len() as int));
            }
        }
    } else {
        assert(names[0].1.is_prefix_of(names[0].1));
    }
}

/// Cuts the vendor prefix shared by all GPU names off each of them (when
/// there are two or more names and they share one), trimming what is left.
pub fn clean_common_prefixes(gpus: Vec<GpuName>) -> (r: Vec<GpuName>)
    ensures
        gpu_entries_view(r@) == cleaned_names(gpu_entries_view(gpus@)),
{
    let ghost m = gpu_entries_view(gpus@);
    if gpus.len() <= 1 {
        return gpus;
    }
    let mut prefix = str_chars(gpus[0].name.as_str());
    let mut k: usize = 1;
    while k < gpus.len()
        invariant
            1 <= k <= gpus@.len(),
            m == gpu_entries_view(gpus@),
            prefix@ == shared_prefix(m, k - 1),
        decreases gpus@.len() - k,
    {
        let name = str_chars(gpus[k].name.as_str());
        assert(name@ == m[k as int].1);
        let mut c: usize = 0;
        proof {
            lemma_common_len(prefix@, name@, 0);
        }
        while c < prefix.len() && c < name.len() && prefix[c] == name[c]
            invariant
                c <= prefix@.len(),
                c <= name@.len(),
                common_len(prefix@, name@) == common_len_from(prefix@, name@, c as int),
            decreases prefix@.len() - c,
        {
            c = c + 1;
        }
        let mut cut: Vec<char> = Vec::new();
        push_all(&mut cut, &prefix.as_slice()[0..c]);
        assert(cut@ =~= prefix@.take(c as int));
        prefix = cut;
        k = k + 1;
    }
    proof {
        lemma_shared_prefix(m, m.len() - 1);
    }
    if prefix.len() == 0 {
        return gpus;
    }
    let n = gpus.len();
    let plen = prefix.len();
    let mut src = gpus;
    let mut out: Vec<GpuName> = Vec::new();
    let mut i: usize = 0;
    while i < n
        invariant
            n == m.len(),
            i <= n,
            src@.len() == n - i,
            plen == shared_prefix(m, m.len() - 1).len(),
            gpu_entries_view(src@) == m.skip(i as int),
            forall|j: int| 0 <= j < m.len() ==> shared_prefix(m, m.len() - 1).is_prefix_of(#[trigger] m[j].1),
            gpu_entries_view(out@) == m.take(i as int).map_values(
                |e: GpuEntry| (e.0, trim_spec(e.1.skip(plen as int))),
            ),
        decreases n - i,
    {
        let ghost sb = src@;
        let g = src.remove(0);
        assert(gpu_entries_view(sb)[0] == m.skip(i as int)[0]);
        assert((g.pci_id@, g.name@) == m[i as int]);
        assert(gpu_entries_view(src@) =~= gpu_entries_view(sb).skip(1));
        assert(m.skip(i as int).skip(1) =~= m.skip(i + 1));
        assert(shared_prefix(m, m.len() - 1).is_prefix_of(m[i as int].1));
        let v = str_chars(g.name.as_str());
        let t = trim_chars(&v.as_slice()[plen..v.len()]);
        assert(v@.subrange(plen as int, v@.len() as int) =~= v@.skip(plen as int));
        let ghost before = out@;
        let ghost e = m[i as int];
        let cleaned = GpuName { pci_id: g.pci_id, name: chars_to_string(&t) };
        assert((cleaned.pci_id@, cleaned.name@) == (e.0, trim_spec(e.1.skip(plen as int))));
        out.push(cleaned);
        assert(gpu_entries_view(out@) =~= gpu_entries_view(before).push((e.0, trim_spec(e.1.skip(plen as int)))));
        assert(m.take(i + 1) =~= m.take(i as int).push(e));
        assert(gpu_entries_view(out@) =~= m.take(i + 1).map_values(
            |e: GpuEntry| (e.0, trim_spec(e.1.skip(plen as int))),
        ));
        i = i + 1;
    }
    assert(m.take(n as int) =~= m);
    out
}

/// The GPU an `lspci` line describes, if it is an AMD display controller
/// (`vga` or `display`, and `amd`, in any case): its PCI address (the text
/// before the first space) and its name (after the first `": "` of the rest,
/// or the whole rest, trimmed).
pub open spec fn gpu_line_entry(line: Seq<char>) -> Option<GpuEntry> {
    let low = lowercase(line);
    if (contains_seq(low, "vga"@) || contains_seq(low, "display"@)) && contains_seq(low, "amd"@) {
        match first_occurrence(line, " "@) {
            Some(i) => {
                let desc = line.skip(i + 1);
                let name = match first_occurrence(desc, ": "@) {
                    Some(j) => trim_spec(desc.skip(j + 2)),
                    None => trim_spec(desc),
                };
                Some((line.take(i), name))
            },
            None => None,
        }
    } else {
        None
    }
}

/// Position of the entry with PCI address `key` at or after `i`.
pub open spec fn key_pos_from(m: Seq<GpuEntry>, key: Seq<char>, i: int) -> Option<int>
    decreases m.len() - i,
{
    if i < 0 || i >= m.len() {
        None
    } else if m[i].0 == key {
        Some(i)
    } else {
        key_pos_from(m, key, i + 1)
    }
}

/// `m` with entry `e` recorded: replacing the name of an entry with the
/// same address, else added at the end.
pub open spec fn upsert(m: Seq<GpuEntry>, e: GpuEntry) -> Seq<GpuEntry> {
    match key_pos_from(m, e.0, 0) {
        Some(i) => m.update(i, e),
        None => m.push(e),
    }
}

/// The entries recorded from the first `n` lines, a later line for an
/// address replacing an earlier one.
pub open spec fn gpu_entries_from(lines: Seq<Seq<char>>, n: int) -> Seq<GpuEntry>
    decreases n,
{
    if n <= 0 {
        seq![]
    } else {
        let prev = gpu_entries_from(lines, n - 1);
        match gpu_line_entry(lines[n - 1]) {
            Some(e) => upsert(prev, e),
            None => prev,
        }
    }
}

/// The AMD GPU names that `lspci` output lists, with the shared vendor
/// prefix cut off.
pub open spec fn amd_gpu_names_spec(lspci: Seq<char>) -> Seq<GpuEntry> {
    let lines = lines_spec(lspci);
    cleaned_names(gpu_entries_from(lines, lines.len() as int))
}

proof fn lemma_key_pos_none(m: Seq<GpuEntry>, key: Seq<char>, i: int)
    requires
        0 <= i,
        key_pos_from(m, key, i) is None,
    ensures
        forall|j: int| i <= j < m.len() ==> #[trigger] m[j].0 != key,
    decreases m.len() - i,
{
    if i < m.len() {
        lemma_key_pos_none(m, key, i + 1);
    }
}

proof fn lemma_upsert_unique(m: Seq<GpuEntry>, e: GpuEntry)
    requires
        keys_unique(m),
    ensures
        keys_unique(upsert(m, e)),
{
    match key_pos_from(m, e.0, 0) {
        Some(p) => {
            lemma_key_pos_found(m, e.0, 0);
            let u = m.update(p, e);
            assert forall|i: int, j: int| 0 <= i < j < u.len() implies #[trigger] u[i].0 != #[trigger] u[j].0 by {
                assert(m[i].0 != m[j].0);
            }
        },
        None => {
            lemma_key_pos_none(m, e.0, 0);
            let u = m.push(e);
            assert forall|i: int, j: int| 0 <= i < j < u.len() implies #[trigger] u[i].0 != #[trigger] u[j].0 by {
                if j < m.len() {
                    assert(m[i].0 != m[j].0);
                } else {
                    assert(m[i].0 != e.0);
                }
            }
        },
    }
}

proof fn lemma_entries_unique(lines: Seq<Seq<char>>, n: int)
    ensures
        keys_unique(gpu_entries_from(lines, n)),
    decreases n,
{
    if n > 0 {
        lemma_entries_unique(lines, n - 1);
        match gpu_line_entry(lines[n - 1]) {
            Some(e) => lemma_upsert_unique(gpu_entries_from(lines, n - 1), e),
            None => {},
        }
    }
}

/// The names that `lspci` output gives are keyed by PCI address: no
/// address occurs twice, also after the shared prefix is cut off.
pub proof fn law_gpu_names_keyed(lspci: Seq<char>)
    ensures
        keys_unique(amd_gpu_names_spec(lspci)),
{
    let lines = lines_spec(lspci);
    let m = gpu_entries_from(lines, lines.len() as int);
    lemma_entries_unique(lines, lines.len() as int);
    let c = cleaned_names(m);
    assert forall|i: int, j: int| 0 <= i < j < c.len() implies #[trigger] c[i].0 != #[trigger] c[j].0 by {
        assert(c[i].0 == m[i].0 && c[j].0 == m[j].0);
        assert(m[i].0 != m[j].0);
    }
}

fn gpu_line(line: &[char]) -> (r: Option<GpuName>)
    ensures
        match gpu_line_entry(line@) {
            Some(e) => r is Some && (r.unwrap().pci_id@, r.unwrap().name@) == e,
            None => r is None,
        },
{
    let text = chars_to_string(line);
    let lower = to_lowercase(text.as_str());
    let low = str_chars(lower.as_str());
    let kind = contains(&low, &str_chars("vga")) || contains(&low, &str_chars("display"));
    if !(kind && contains(&low, &str_chars("amd"))) {
        return None;
    }
    proof {
        reveal_strlit(" ");
        reveal_strlit(": ");
    }
    let space = str_chars(" ");
    assert(space@.len() == 1);
    match find(line, &space) {
        None => None,
        Some(i) => {
            let n = line.len();
            assert(i < n);
            let desc = &line[i + 1..n];
            assert(desc@ =~= line@.skip(i + 1));
            let colon = str_chars(": ");
            let name = match find(desc, &colon) {
                Some(j) => {
                    let rest = &desc[j + 2..desc.len()];
                    assert(rest@ =~= desc@.skip(j + 2));
                    trim_chars(rest)
                },
                None => trim_chars(desc),
            };
            let addr = &line[0..i];
            assert(addr@ =~= line@.take(i as int));
            Some(GpuName { pci_id: chars_to_string(addr), name: chars_to_string(&name) })
        },
    }
}

proof fn lemma_key_pos_found(m: Seq<GpuEntry>, key: Seq<char>, i: int)
    requires
        key_pos_from(m, key, i) is Some,
    ensures
        0 <= key_pos_from(m, key, i).unwrap() < m.len(),
        m[key_pos_from(m, key, i).unwrap()].0 == key,
    decreases m.len() - i,
{
    if i < 0 || i >= m.len() {
    } else if m[i].0 == key {
    } else {
        lemma_key_pos_found(m, key, i + 1);
    }
}

fn record_gpu(names: &mut Vec<GpuName>, g: GpuName)
    ensures
        gpu_entries_view(final(names)@) == upsert(gpu_entries_view(old(names)@), (g.pci_id@, g.name@)),
{
    let ghost m = gpu_entries_view(names@);
    let key = str_chars(g.pci_id.as_str());
    let mut i: usize = 0;
    while i < names.len()
        invariant
            i <= names@.len(),
            names@ == old(names)@,
            m == gpu_entries_view(names@),
            key@ == g.pci_id@,
            key_pos_from(m, key@, 0) == key_pos_from(m, key@, i as int),
        decreases names@.len() - i,
    {
        let id = str_chars(names[i].pci_id.as_str());
        if crate::text::chars_eq(&id, &key) {
            assert(key_pos_from(m, key@, i as int) == Some(i as int));
            let ghost e = (g.pci_id@, g.name@);
            names.set(i, g);
            assert(gpu_entries_view(names@) =~= m.update(i as int, e));
            return;
        }
        i = i + 1;
    }
    let ghost e = (g.pci_id@, g.name@);
    names.push(g);
    assert(gpu_entries_view(names@) =~= m.push(e));
}

/// The AMD GPU names, by PCI address, that the output of `lspci` lists:
/// lines naming a VGA or display controller by AMD give an address and a
/// name; the vendor prefix shared by all names is cut off.
pub fn amd_gpu_names_from(lspci: &str) -> (r: Vec<GpuName>)
    ensures
        gpu_entries_view(r@) == amd_gpu_names_spec(lspci@),
{
    let text = str_chars(lspci);
    let lines = lines_of(&text);
    let ghost ls = lines_spec(lspci@);
    let mut names: Vec<GpuName> = Vec::new();
    let mut i: usize = 0;
    while i < lines.len()
        invariant
            i <= lines@.len(),
            lines@.len() == ls.len(),
            forall|k: int| 0 <= k < lines@.len() ==> (#[trigger] lines@[k])@ == ls[k],
            gpu_entries_view(names@) == gpu_entries_from(ls, i as int),
        decreases lines@.len() - i,
    {
        let ghost before = gpu_entries_view(names@);
        assert(lines@[i as int]@ == ls[i as int]);
        match gpu_line(lines[i].as_slice()) {
            Some(g) => {
                record_gpu(&mut names, g);
            },
            None => {},
        }
        i = i + 1;
    }
    clean_common_prefixes(names)
}

/// A DRM card as values: (card number, directory entry name).
pub type CardEntry = (u32, Seq<char>);

/// The values of a list of cards.
pub open spec fn cards_view(c: Seq<(u32, String)>) -> Seq<CardEntry> {
    c.map_values(|x: (u32, String)| (x.0, x.1@))
}

/// The cards among the first `n` DRM directory entries: those named
/// `card<number>`, in listing order.
pub open spec fn card_entries(names: Seq<Seq<char>>, n: int) -> Seq<CardEntry>
    decreases n,
{
    if n <= 0 {
        seq![]
    } else {
        let prev = card_entries(names, n - 1);
        match numbered_name_spec(names[n - 1], "card"@) {
            Some(k) => prev.push((k as u32, names[n - 1])),
            None => prev,
        }
    }
}

/// Where a card numbered `k` goes in `s`: before the first card at or
/// after `j` with a greater number.
pub open spec fn card_slot_from(s: Seq<CardEntry>, k: u32, j: int) -> int
    decreases s.len() - j,
{
    if j < 0 || j >= s.len() {
        s.len() as int
    } else if s[j].0 > k {
        j
    } else {
        card_slot_from(s, k, j + 1)
    }
}

/// Stable sort by card number.
pub open spec fn sort_cards_spec(s: Seq<CardEntry>) -> Seq<CardEntry>
    decreases s.len(),
{
    if s.len() == 0 {
        seq![]
    } else {
        let t = sort_cards_spec(s.drop_last());
        t.insert(card_slot_from(t, s.last().0, 0), s.last())
    }
}

/// Whether the cards are in ascending order of number.
pub open spec fn cards_sorted(s: Seq<CardEntry>) -> bool {
    forall|i: int, j: int| 0 <= i < j < s.len() ==> #[trigger] s[i].0 <= #[trigger] s[j].0
}

proof fn lemma_card_slot(s: Seq<CardEntry>, k: u32, j: int)
    requires
        0 <= j <= s.len(),
        cards_sorted(s),
        forall|i: int| 0 <= i < j ==> #[trigger] s[i].0 <= k,
    ensures
        j <= card_slot_from(s, k, j) <= s.len(),
        forall|i: int| 0 <= i < card_slot_from(s, k, j) ==> #[trigger] s[i].0 <= k,
        forall|i: int| card_slot_from(s, k, j) <= i < s.len() ==> #[trigger] s[i].0 > k,
    decreases s.len() - j,
{
    if j < s.len() {
        if s[j].0 > k {
            assert forall|i: int| j <= i < s.len() implies #[trigger] s[i].0 > k by {
                if i > j {
                    assert(s[j].0 <= s[i].0);
                }
            }
        } else {
            lemma_card_slot(s, k, j + 1);
        }
    }
}

proof fn lemma_sort_cards(s: Seq<CardEntry>)
    ensures
        cards_sorted(sort_cards_spec(s)),
        sort_cards_spec(s).len() == s.len(),
        sort_cards_spec(s).to_multiset() =~= s.to_multiset(),
    decreases s.len(),
{
    if s.len() > 0 {
        let t = sort_cards_spec(s.drop_last());
        lemma_sort_cards(s.drop_last());
        let x = s.last();
        lemma_card_slot(t, x.0, 0);
        let p = card_slot_from(t, x.0, 0);
        let u = t.insert(p, x);
        assert forall|i: int, j: int| 0 <= i < j < u.len() implies #[trigger] u[i].0 <= #[trigger] u[j].0 by {
            if j < p {
                assert(t[i].0 <= t[j].0);
            } else if j == p {
                assert(t[i].0 <= x.0);
            } else if i < p {
                assert(t[i].0 <= x.0);
                assert(t[j - 1].0 > x.0);
            } else if i == p {
                assert(t[j - 1].0 > x.0);
            } else {
                assert(t[i - 1].0 <= t[j - 1].0);
            }
        }
        crate::seq_facts::lemma_insert_to_multiset(t, p, x);
        crate::seq_facts::lemma_push_to_multiset(s.drop_last(), x);
        assert(s.drop_last().push(x) =~= s);
    } else {
        assert(sort_cards_spec(s) =~= s);
    }
}

/// The cards of a DRM directory listing come out in ascending order of
/// card number, exactly one for each entry named `card<number>`.
pub proof fn law_cards_ascending(names: Seq<Seq<char>>)
    ensures
        cards_sorted(sort_cards_spec(card_entries(names, names.len() as int))),
        sort_cards_spec(card_entries(names, names.len() as int)).to_multiset() =~= card_entries(
            names,
            names.len() as int,
        ).to_multiset(),
{
    lemma_sort_cards(card_entries(names, names.len() as int));
}

fn insert_card(out: &mut Vec<(u32, String)>, x: (u32, String))
    ensures
        cards_view(final(out)@) == cards_view(old(out)@).insert(
            card_slot_from(cards_view(old(out)@), x.0, 0),
            (x.0, x.1@),
        ),
{
    let ghost c = cards_view(out@);
    let mut j: usize = 0;
    while j < out.len() && !(out[j].0 > x.0)
        invariant
            j <= out@.len(),
            out@ == old(out)@,
            c == cards_view(out@),
            card_slot_from(c, x.0, 0) == card_slot_from(c, x.0, j as int),
        decreases out@.len() - j,
    {
        j = j + 1;
    }
    let ghost e = (x.0, x.1@);
    out.insert(j, x);
    assert(cards_view(out@) =~= c.insert(j as int, e));
}

/// Sorts numbered entries by number, keeping the listing order of entries
/// with the same number.
pub fn sort_numbered(entries: Vec<(u32, String)>) -> (r: Vec<(u32, String)>)
    ensures
        cards_view(r@) == sort_cards_spec(cards_view(entries@)),
{
    let ghost all = cards_view(entries@);
    let n = entries.len();
    let mut found = entries;
    let mut out: Vec<(u32, String)> = Vec::new();
    let mut k: usize = 0;
    while k < n
        invariant
            k <= n,
            n == all.len(),
            found@.len() == n - k,
            cards_view(found@) == all.skip(k as int),
            cards_view(out@) == sort_cards_spec(all.take(k as int)),
        decreases n - k,
    {
        let ghost fb = cards_view(found@);
        let x = found.remove(0);
        assert(fb[0] == all.skip(k as int)[0]);
        assert((x.0, x.1@) == all[k as int]);
        assert(cards_view(found@) =~= fb.skip(1));
        assert(all.skip(k as int).skip(1) =~= all.skip(k + 1));
        insert_card(&mut out, x);
        assert(all.take(k + 1).drop_last() =~= all.take(k as int));
        k = k + 1;
    }
    assert(all.take(n as int) =~= all);
    out
}

/// The DRM cards among directory entry names (`card<number>`), in
/// ascending order of number, entries with the same number in listing order.
pub fn drm_cards(names: Vec<String>) -> (r: Vec<(u32, String)>)
    ensures
        cards_view(r@) == sort_cards_spec(card_entries(texts_view(names@), names@.len() as int)),
{
    let ghost ns = texts_view(names@);
    let mut found: Vec<(u32, String)> = Vec::new();
    let mut i: usize = 0;
    while i < names.len()
        invariant
            i <= names@.len(),
            ns == texts_view(names@),
            cards_view(found@) == card_entries(ns, i as int),
        decreases names@.len() - i,
    {
        assert(ns[i as int] == names@[i as int]@);
        match numbered_name(names[i].as_str(), "card") {
            Some(k) => {
                let ghost before = cards_view(found@);
                let ghost e = (k, names@[i as int]@);
                found.push((k, copy_string(&names[i])));
                assert(cards_view(found@) =~= before.push(e));
            },
            None => {},
        }
        i = i + 1;
    }
    sort_numbered(found)
}

/// The usage sensor of DRM card `card_index`, when its PCI vendor (the
/// trimmed vendor file) is AMD's `0x1002`: named after the GPU's marketing
/// name when its PCI address (the device link's name without the `0000:`
/// domain) is known, else `AMD GPU <n>`, followed by `: Usage`, in percent.
pub open spec fn gpu_usage_name(card_index: u32, device_link: Option<Seq<char>>, names: Seq<GpuName>) -> Seq<char> {
    let known = match device_link {
        Some(l) => if "0000:"@.is_prefix_of(l) {
            gpu_name_from(names, l.skip(5), 0)
        } else {
            None
        },
        None => None,
    };
    match known {
        Some(n) => n + ": Usage"@,
        None => "AMD GPU "@ + dec(card_index as nat) + ": Usage"@,
    }
}

/// The usage sensor of an AMD card, if the vendor says AMD.
pub fn amd_gpu_usage_sensor(
    card_index: u32,
    vendor: &str,
    device_link: Option<&str>,
    gpu_names: &[GpuName],
) -> (r: Option<SensorInfo>)
    ensures
        match r {
            Some(s) => {
                &&& trim_spec(vendor@) == "0x1002"@
                &&& s.source@ == (SensorSourceView::AmdGpuUsage { card_index })
                &&& s.sensor_name is None
                &&& s.display_name is Some
                &&& s.display_name.unwrap()@ == gpu_usage_name(
                    card_index,
                    crate::sysfs::opt_str_view(device_link),
                    gpu_names@,
                )
                &&& s.divider == 1
                &&& s.unit == Unit::PERCENT
            },
            None => trim_spec(vendor@) != "0x1002"@,
        },
{
    let v = trim_chars(&str_chars(vendor));
    let amd = str_chars("0x1002");
    if !chars_eq(&v, &amd) {
        return None;
    }
    let known: Option<String> = match device_link {
        Some(l) => {
            let lv = str_chars(l);
            let dom = str_chars("0000:");
            proof {
                reveal_strlit("0000:");
            }
            if crate::text::starts_with(&lv, &dom) {
                let key = &lv.as_slice()[5..lv.len()];
                assert(key@ =~= lv@.skip(5));
                lookup_gpu_name(gpu_names, key)
            } else {
                None
            }
        },
        None => None,
    };
    let mut out: Vec<char> = Vec::new();
    match known {
        Some(n) => {
            push_str(&mut out, n.as_str());
        },
        None => {
            push_str(&mut out, "AMD GPU ");
            push_dec(&mut out, card_index as u64);
        },
    }
    push_str(&mut out, ": Usage");
    Some(SensorInfo {
        source: SensorSource::AmdGpuUsage { card_index },
        sensor_name: None,
        display_name: Some(chars_to_string(&out)),
        divider: 1,
        unit: Unit::PERCENT,
    })
}

} // verus!
