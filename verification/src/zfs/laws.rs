//! What the ZFS parsers promise of every input: the parity a vdev's name
//! gives it, and the columns `zfs list` is asked for.
use vstd::prelude::*;
use crate::common::storage::{PoolHealth, ScanFunction, ScanState, ScanStatus, VdevType, health_of};
use crate::zfs::status::{item_of, scan_ok};
use crate::text::{contains, parse_unsigned, starts_with};
use crate::text::{is_digit, join};
use crate::zfs::parse::{ZFS_LIST_COLUMNS, last_pos, vdev_base, vdev_kind};

verus! {

proof fn lemma_last_pos_none(s: Seq<char>, c: char)
    requires
        forall|i: int| 0 <= i < s.len() ==> s[i] != c,
    ensures
        last_pos(s, c) is None,
    decreases s.len(),
{
    if s.len() > 0 {
        lemma_last_pos_none(s.drop_last(), c);
    }
}

proof fn lemma_last_pos_append(s: Seq<char>, t: Seq<char>, c: char)
    requires
        forall|i: int| 0 <= i < t.len() ==> t[i] != c,
    ensures
        last_pos(s + t, c) == last_pos(s, c),
    decreases t.len(),
{
    if t.len() == 0 {
        assert(s + t == s);
    } else {
        assert((s + t).drop_last() == s + t.drop_last());
        assert((s + t).last() == t.last());
        lemma_last_pos_append(s, t.drop_last(), c);
    }
}

/// A name of `-` free word, alone or followed by `-` and digits, has that
/// word as its base.
proof fn lemma_base_of(word: Seq<char>, digits: Seq<char>, name: Seq<char>)
    requires
        forall|i: int| 0 <= i < word.len() ==> word[i] != '-',
        forall|i: int| 0 <= i < digits.len() ==> is_digit(#[trigger] digits[i]),
        name == word || name == word + "-"@ + digits,
    ensures
        vdev_base(name) == word,
{
    reveal_strlit("-");
    if name == word {
        lemma_last_pos_none(word, '-');
    } else {
        let w = word + "-"@;
        assert(w.last() == '-');
        assert(w.drop_last() =~= word);
        assert forall|i: int| 0 <= i < digits.len() implies digits[i] != '-' by {
            assert(is_digit(digits[i]));
        }
        lemma_last_pos_append(w, digits, '-');
        assert(last_pos(w, '-') == Some(word.len() as int));
        assert forall|i: int| word.len() + 1 <= i < name.len() implies is_digit(#[trigger] name[i]) by {
            assert(name[i] == digits[i - word.len() - 1]);
        }
        assert(name.take(word.len() as int) =~= word);
    }
}

/// Below the pool's root, a vdev named by a parity word, alone or with a
/// `-N` suffix (`raidz2`, `raidz2-0`), has that word's parity: `raidz` and
/// `raidz1` single, `raidz2` double, `raidz3` triple; `mirror` and
/// `mirror-N` are mirrors.
pub proof fn lemma_vdev_parity(word: Seq<char>, digits: Seq<char>, name: Seq<char>, level: int)
    requires
        level > 0,
        forall|i: int| 0 <= i < digits.len() ==> is_digit(#[trigger] digits[i]),
        name == word || name == word + "-"@ + digits,
    ensures
        word == "raidz"@ ==> vdev_kind(name, level) == VdevType::Raidz1,
        word == "raidz1"@ ==> vdev_kind(name, level) == VdevType::Raidz1,
        word == "raidz2"@ ==> vdev_kind(name, level) == VdevType::Raidz2,
        word == "raidz3"@ ==> vdev_kind(name, level) == VdevType::Raidz3,
        word == "mirror"@ ==> vdev_kind(name, level) == VdevType::Mirror,
{
    reveal_strlit("raidz");
    reveal_strlit("raidz1");
    reveal_strlit("raidz2");
    reveal_strlit("raidz3");
    reveal_strlit("mirror");
    reveal_strlit("replacing");
    reveal_strlit("spare");
    reveal_strlit("logs");
    reveal_strlit("cache");
    reveal_strlit("spares");
    if word == "raidz"@ || word == "raidz1"@ || word == "raidz2"@ || word == "raidz3"@ || word == "mirror"@ {
        assert forall|i: int| 0 <= i < word.len() implies word[i] != '-' by {
        }
        lemma_base_of(word, digits, name);
        assert("raidz"@ != "mirror"@) by { assert("raidz"@.len() != "mirror"@.len()); }
        assert("raidz1"@ != "mirror"@) by { assert("raidz1"@[0] != "mirror"@[0]); }
        assert("raidz2"@ != "mirror"@) by { assert("raidz2"@[0] != "mirror"@[0]); }
        assert("raidz3"@ != "mirror"@) by { assert("raidz3"@[0] != "mirror"@[0]); }
        assert("raidz2"@ != "raidz1"@) by { assert("raidz2"@[5] != "raidz1"@[5]); }
        assert("raidz3"@ != "raidz1"@) by { assert("raidz3"@[5] != "raidz1"@[5]); }
        assert("raidz3"@ != "raidz2"@) by { assert("raidz3"@[5] != "raidz2"@[5]); }
        assert("raidz2"@ != "raidz"@) by { assert("raidz2"@.len() != "raidz"@.len()); }
        assert("raidz3"@ != "raidz"@) by { assert("raidz3"@.len() != "raidz"@.len()); }
    }
}

/// The columns `zfs list` is asked for, in order.
pub open spec fn zfs_list_columns() -> Seq<Seq<char>> {
    seq![
        "name"@, "type"@, "mountpoint"@, "mounted"@, "used"@, "available"@, "referenced"@, "logicalused"@,
        "quota"@, "reservation"@, "compression"@, "compressratio"@, "atime"@, "recordsize"@, "volsize"@,
        "volblocksize"@, "origin"@, "creation"@, "nightshade.systems:mandrake-id"@,
    ]
}

/// Joining one more piece puts the separator and the piece after the
/// rest.
pub proof fn lemma_join_take(c: Seq<Seq<char>>, sep: Seq<char>, k: int)
    requires
        1 <= k < c.len(),
    ensures
        join(c.take(k + 1), sep) == join(c.take(k), sep) + sep + c[k],
{
    assert(c.take(k + 1).drop_last() =~= c.take(k));
    assert(c.take(k + 1).last() == c[k]);
}

#[verifier::rlimit(100)]
proof fn lemma_columns_text()
    ensures
        ZFS_LIST_COLUMNS@ == "name"@ + ","@ + "type"@ + ","@ + "mountpoint"@ + ","@ + "mounted"@ + ","@ + "used"@ + ","@ + "available"@ + ","@ + "referenced"@ + ","@ + "logicalused"@ + ","@ + "quota"@ + ","@ + "reservation"@ + ","@ + "compression"@ + ","@ + "compressratio"@ + ","@ + "atime"@ + ","@ + "recordsize"@ + ","@ + "volsize"@ + ","@ + "volblocksize"@ + ","@ + "origin"@ + ","@ + "creation"@ + ","@ + "nightshade.systems:mandrake-id"@,
{
    reveal_strlit(",");
    reveal_strlit("name");
    reveal_strlit("type");
    reveal_strlit("mountpoint");
    reveal_strlit("mounted");
    reveal_strlit("used");
    reveal_strlit("available");
    reveal_strlit("referenced");
    reveal_strlit("logicalused");
    reveal_strlit("quota");
    reveal_strlit("reservation");
    reveal_strlit("compression");
    reveal_strlit("compressratio");
    reveal_strlit("atime");
    reveal_strlit("recordsize");
    reveal_strlit("volsize");
    reveal_strlit("volblocksize");
    reveal_strlit("origin");
    reveal_strlit("creation");
    reveal_strlit("nightshade.systems:mandrake-id");
    reveal_strlit("name,type,mountpoint,mounted,used,available,referenced,logicalused,quota,reservation,compression,compressratio,atime,recordsize,volsize,volblocksize,origin,creation,nightshade.systems:mandrake-id");
    assert(ZFS_LIST_COLUMNS@ =~= "name"@ + ","@ + "type"@ + ","@ + "mountpoint"@ + ","@ + "mounted"@ + ","@ + "used"@ + ","@ + "available"@ + ","@ + "referenced"@ + ","@ + "logicalused"@ + ","@ + "quota"@ + ","@ + "reservation"@ + ","@ + "compression"@ + ","@ + "compressratio"@ + ","@ + "atime"@ + ","@ + "recordsize"@ + ","@ + "volsize"@ + ","@ + "volblocksize"@ + ","@ + "origin"@ + ","@ + "creation"@ + ","@ + "nightshade.systems:mandrake-id"@);
}

/// The column list sent to `zfs list` is those columns, comma-joined.
pub proof fn lemma_zfs_list_columns()
    ensures
        join(zfs_list_columns(), ","@) == ZFS_LIST_COLUMNS@,
{
    let c = zfs_list_columns();
    let s = ","@;
    assert(c.take(1) =~= seq![c[0]]);
    assert(join(c.take(1), s) == c[0]);
    lemma_join_take(c, s, 1);
    lemma_join_take(c, s, 2);
    lemma_join_take(c, s, 3);
    lemma_join_take(c, s, 4);
    lemma_join_take(c, s, 5);
    lemma_join_take(c, s, 6);
    lemma_join_take(c, s, 7);
    lemma_join_take(c, s, 8);
    lemma_join_take(c, s, 9);
    lemma_join_take(c, s, 10);
    lemma_join_take(c, s, 11);
    lemma_join_take(c, s, 12);
    lemma_join_take(c, s, 13);
    lemma_join_take(c, s, 14);
    lemma_join_take(c, s, 15);
    lemma_join_take(c, s, 16);
    lemma_join_take(c, s, 17);
    lemma_join_take(c, s, 18);
    assert(c.take(19) =~= c);
    lemma_columns_text();
}

/// A scan's kind, state and summary from the `scan:` lines: a resilver
/// exactly when the first line begins with `resilver` (else a scrub);
/// running while it says "in progress since" or "paused since", canceled
/// when it says "canceled on" and neither of those, else finished; the
/// summary is the lines joined.
pub proof fn lemma_scan_reads(s: ScanStatus, ls: Seq<Seq<char>>)
    requires
        ls.len() > 0,
        scan_ok(s, ls),
    ensures
        (s.function == ScanFunction::Resilver) <==> starts_with(ls[0], "resilver"@),
        (s.state == ScanState::InProgress) <==> (contains(ls[0], "in progress since"@) || contains(
            ls[0],
            "paused since"@,
        )),
        (s.state == ScanState::Canceled) <==> (!contains(ls[0], "in progress since"@) && !contains(
            ls[0],
            "paused since"@,
        ) && contains(ls[0], "canceled on"@)),
        s.summary@ == join(ls, "\n"@),
{
}

/// A line of the config with a state word after the name gives the node
/// that name and state, and its read, write and checksum counters from the
/// three words after the state, in that order.
pub proof fn lemma_config_line(f: Seq<Seq<char>>, level: int, ps: PoolHealth)
    requires
        f.len() >= 5,
        health_of(f[1]) is Some,
    ensures
        item_of(f, level, ps).name == f[0],
        Some(item_of(f, level, ps).state) == health_of(f[1]),
        item_of(f, level, ps).read == parse_unsigned(f[2], 10, u64::MAX as int),
        item_of(f, level, ps).write == parse_unsigned(f[3], 10, u64::MAX as int),
        item_of(f, level, ps).cksum == parse_unsigned(f[4], 10, u64::MAX as int),
        item_of(f, level, ps).kind == vdev_kind(f[0], level),
{
    let c = f.skip(2);
    assert(c[0] == f[2]);
    assert(c[1] == f[3]);
    assert(c[2] == f[4]);
}

} // verus!
