//! Database housekeeping decisions: which schema migrations a database still
//! needs, and how stored settings are read back with their defaults.

use vstd::prelude::*;

use crate::text::{push_str, str_eq, string_from_chars};

verus! {

/// Number of the newest schema migration.
pub const LATEST_MIGRATION: u8 = 9;

/// The migrations a database at schema `version` still needs: every one
/// numbered above it, up to the newest, in order.
pub open spec fn spec_pending_migrations(version: int) -> Seq<u8> {
    let first = if version < 0 {
        1
    } else {
        version + 1
    };
    if first > LATEST_MIGRATION {
        Seq::empty()
    } else {
        Seq::new((LATEST_MIGRATION - first + 1) as nat, |i: int| (first + i) as u8)
    }
}

/// The migrations to apply, in order, to a database whose `user_version`
/// is `version`.
pub fn pending_migrations(version: i32) -> (r: Vec<u8>)
    ensures
        r@ == spec_pending_migrations(version as int),
{
    let mut r: Vec<u8> = Vec::new();
    let first: u8 = if version < 0 {
        1
    } else if version >= LATEST_MIGRATION as i32 {
        return r;
    } else {
        (version + 1) as u8
    };
    let mut k: u8 = first;
    while k <= LATEST_MIGRATION
        invariant
            1 <= first <= k <= LATEST_MIGRATION + 1,
            first == (if version < 0 {
                1
            } else {
                version + 1
            }),
            r@ == Seq::new((k - first) as nat, |i: int| (first + i) as u8),
        decreases LATEST_MIGRATION + 1 - k,
    {
        r.push(k);
        proof {
            assert(r@ =~= Seq::new((k + 1 - first) as nat, |i: int| (first + i) as u8));
        }
        k = k + 1;
    }
    assert(r@ =~= spec_pending_migrations(version as int));
    r
}

/// Whatever version a database is at, the migrations it still needs end at
/// the newest, and a database at the newest needs none: running the
/// migrations a second time does nothing.
pub proof fn lemma_migrations_reach_latest(version: int)
    ensures
        spec_pending_migrations(version).len() > 0 ==> spec_pending_migrations(version).last()
            == LATEST_MIGRATION,
        spec_pending_migrations(LATEST_MIGRATION as int).len() == 0,
        forall|i: int, j: int|
            0 <= i < j < spec_pending_migrations(version).len() ==> spec_pending_migrations(
                version,
            )[i] < spec_pending_migrations(version)[j],
{
}

/// A stored text setting, or `default` when it is not stored.
pub fn setting_or(value: Option<String>, default: &str) -> (r: String)
    ensures
        r@ == (match value {
            Some(v) => v@,
            None => default@,
        }),
{
    match value {
        Some(v) => v,
        None => {
            let mut out: Vec<char> = Vec::new();
            push_str(&mut out, default);
            string_from_chars(out.as_slice())
        },
    }
}

/// Whether output fading is on: only the stored value `on` turns it on.
pub fn fade_enabled(value: Option<String>) -> (b: bool)
    ensures
        b == (match value {
            Some(v) => v@ == "on"@,
            None => false,
        }),
{
    match value {
        Some(v) => str_eq(v.as_str(), "on"),
        None => false,
    }
}

/// The preferred ASIO driver: the stored name unless it is missing or empty.
pub fn asio_driver_setting(value: Option<String>) -> (r: Option<String>)
    ensures
        match value {
            Some(v) => if v@.len() > 0 {
                r == Some(v)
            } else {
                r is None
            },
            None => r is None,
        },
{
    match value {
        Some(v) => {
            if v.as_str().unicode_len() > 0 {
                Some(v)
            } else {
                None
            }
        },
        None => None,
    }
}

/// A migration is pending exactly when it is numbered above the
/// database's version (and at most the newest); each appears once.
pub proof fn lemma_pending_are_those_above_version(version: int, m: u8)
    requires
        1 <= m <= LATEST_MIGRATION,
    ensures
        spec_pending_migrations(version).contains(m) <==> m > version,
        spec_pending_migrations(version).len() == if version < 0 {
            LATEST_MIGRATION as int
        } else if version >= LATEST_MIGRATION {
            0
        } else {
            LATEST_MIGRATION - version
        },
{
    let p = spec_pending_migrations(version);
    let first = if version < 0 {
        1
    } else {
        version + 1
    };
    if m > version {
        assert(p[m - first] == m);
    }
}

} // verus!
