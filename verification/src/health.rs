//! Health level of the pipeline from its metrics.

use vstd::prelude::*;
use crate::ipc::events::HealthLevel;
use crate::photo::access::{path_has_prefix, path_starts_with};

verus! {

pub const HARD_BACKLOG: u64 = 50_000;

pub const HARD_LAG_SEC: i64 = 300;

pub const HARD_DB_SIZE: u64 = 5_368_709_120;

pub const HARD_FREE_DISK: u64 = 1_073_741_824;

pub const SOFT_BACKLOG: u64 = 30_000;

pub const SOFT_LAG_SEC: i64 = 60;

pub const SOFT_DB_SIZE: u64 = 1_073_741_824;

pub const SOFT_FREE_DISK: u64 = 5_368_709_120;

/// Some metric reached its hard threshold (free disk 0 means "not measured").
pub open spec fn any_hard(backlog: u64, lag: i64, db: u64, free: u64) -> bool {
    backlog >= HARD_BACKLOG || lag >= HARD_LAG_SEC || db >= HARD_DB_SIZE || (free > 0 && free
        <= HARD_FREE_DISK)
}

/// Some metric reached its soft threshold (free disk 0 means "not measured").
pub open spec fn any_soft(backlog: u64, lag: i64, db: u64, free: u64) -> bool {
    backlog >= SOFT_BACKLOG || lag >= SOFT_LAG_SEC || db >= SOFT_DB_SIZE || (free > 0 && free
        <= SOFT_FREE_DISK)
}

/// The level: degraded when any metric reached its hard threshold, else warning when any
/// reached its soft one, else healthy.
pub open spec fn health_level(backlog: u64, lag: i64, db: u64, free: u64) -> HealthLevel {
    if any_hard(backlog, lag, db, free) {
        HealthLevel::Degraded
    } else if any_soft(backlog, lag, db, free) {
        HealthLevel::Warning
    } else {
        HealthLevel::Healthy
    }
}

/// Law: the thresholds of each metric, the others idle: a backlog of 50 000 events, a lag
/// of 300 s, a 5 GiB database or at most 1 GiB of measured free disk degrade; from 30 000
/// events, 60 s, 1 GiB of database or at most 5 GiB of free disk the level is a warning;
/// below those, and when free disk is not measured (0), it is healthy.
pub proof fn lemma_health_thresholds(b: u64, l: i64, d: u64, f: u64)
    ensures
        health_level(b, 0, 0, 0) == (if b >= 50_000 {
            HealthLevel::Degraded
        } else if b >= 30_000 {
            HealthLevel::Warning
        } else {
            HealthLevel::Healthy
        }),
        health_level(0, l, 0, 0) == (if l >= 300 {
            HealthLevel::Degraded
        } else if l >= 60 {
            HealthLevel::Warning
        } else {
            HealthLevel::Healthy
        }),
        health_level(0, 0, d, 0) == (if d >= 5 * 1024 * 1024 * 1024 {
            HealthLevel::Degraded
        } else if d >= 1024 * 1024 * 1024 {
            HealthLevel::Warning
        } else {
            HealthLevel::Healthy
        }),
        health_level(0, 0, 0, f) == (if f == 0 {
            HealthLevel::Healthy
        } else if f <= 1024 * 1024 * 1024 {
            HealthLevel::Degraded
        } else if f <= 5 * 1024 * 1024 * 1024 {
            HealthLevel::Warning
        } else {
            HealthLevel::Healthy
        }),
{
}

/// Health level from the backpressure thresholds:
///
/// | metric            | Warning at    | Degraded at   |
/// |-------------------|---------------|---------------|
/// | backlog_size      | >= 30 000     | >= 50 000     |
/// | projector_lag_sec | >= 60         | >= 300        |
/// | db_size_bytes     | >= 1 GiB      | >= 5 GiB      |
/// | free_disk_bytes   | <= 5 GiB      | <= 1 GiB      |
///
/// Any hard threshold gives `Degraded`, otherwise any soft one gives `Warning`,
/// otherwise `Healthy`. `free_disk_bytes == 0` means "not measured" and never warns.
pub fn classify(
    backlog_size: u64,
    projector_lag_sec: i64,
    db_size_bytes: u64,
    free_disk_bytes: u64,
) -> (r: HealthLevel)
    ensures
        r == health_level(backlog_size, projector_lag_sec, db_size_bytes, free_disk_bytes),
{
    let hard_disk_low = free_disk_bytes > 0 && free_disk_bytes <= HARD_FREE_DISK;
    let soft_disk_low = free_disk_bytes > 0 && free_disk_bytes <= SOFT_FREE_DISK;
    if backlog_size >= HARD_BACKLOG || projector_lag_sec >= HARD_LAG_SEC || db_size_bytes
        >= HARD_DB_SIZE || hard_disk_low {
        return HealthLevel::Degraded;
    }
    if backlog_size >= SOFT_BACKLOG || projector_lag_sec >= SOFT_LAG_SEC || db_size_bytes
        >= SOFT_DB_SIZE || soft_disk_low {
        return HealthLevel::Warning;
    }
    HealthLevel::Healthy
}

/// Ordering of levels by severity.
pub open spec fn severity(l: HealthLevel) -> int {
    match l {
        HealthLevel::Healthy => 0,
        HealthLevel::Warning => 1,
        HealthLevel::Degraded => 2,
    }
}

/// Law: the level is monotone in each load metric — more backlog, more lag or a larger
/// database never gives a better level, and less free disk (while measured) never does either.
pub proof fn lemma_classify_monotone(
    b1: u64,
    l1: i64,
    d1: u64,
    f1: u64,
    b2: u64,
    l2: i64,
    d2: u64,
    f2: u64,
)
    requires
        b1 <= b2,
        l1 <= l2,
        d1 <= d2,
        f1 == 0 && f2 == 0 || 0 < f2 <= f1,
    ensures
        severity(
            if any_hard(b1, l1, d1, f1) {
                HealthLevel::Degraded
            } else if any_soft(b1, l1, d1, f1) {
                HealthLevel::Warning
            } else {
                HealthLevel::Healthy
            },
        ) <= severity(
            if any_hard(b2, l2, d2, f2) {
                HealthLevel::Degraded
            } else if any_soft(b2, l2, d2, f2) {
                HealthLevel::Warning
            } else {
                HealthLevel::Healthy
            },
        ),
{
}

/// `k` is the disk whose mount point holds `db_path` with the longest mount point (the
/// first such one when several are equally long).
pub open spec fn best_mount(db_path: Seq<char>, disks: Seq<(String, u64)>, k: int) -> bool {
    &&& 0 <= k < disks.len()
    &&& path_has_prefix(db_path, disks[k].0@)
    &&& forall|j: int|
        0 <= j < disks.len() && path_has_prefix(db_path, (#[trigger] disks[j]).0@) ==> disks[j].0@.len()
            <= disks[k].0@.len()
    &&& forall|j: int|
        0 <= j < k && path_has_prefix(db_path, (#[trigger] disks[j]).0@) ==> disks[j].0@.len()
            < disks[k].0@.len()
}

/// Free space of the disk holding `db_path`, from `(mount point, available bytes)` of
/// every disk: the one whose mount point is the longest prefix of the path (nested
/// mounts), or 0 ("not measured") when none holds it.
pub fn free_space_for(db_path: &str, disks: &[(String, u64)]) -> (r: u64)
    ensures
        (exists|j: int| 0 <= j < disks@.len() && path_has_prefix(db_path@, (#[trigger] disks@[j]).0@))
            ==> exists|k: int| best_mount(db_path@, disks@, k) && r == disks@[k].1,
        (forall|j: int| 0 <= j < disks@.len() ==> !path_has_prefix(db_path@, (#[trigger] disks@[j]).0@))
            ==> r == 0,
{
    let mut best: Option<usize> = None;
    let mut best_len: usize = 0;
    let mut i: usize = 0;
    while i < disks.len()
        invariant
            i <= disks@.len(),
            match best {
                Some(k) => {
                    &&& k < i
                    &&& best_len == disks@[k as int].0@.len()
                    &&& path_has_prefix(db_path@, disks@[k as int].0@)
                    &&& forall|j: int|
                        0 <= j < i && path_has_prefix(db_path@, (#[trigger] disks@[j]).0@) ==> disks@[j].0@.len()
                            <= best_len
                    &&& forall|j: int|
                        0 <= j < k && path_has_prefix(db_path@, (#[trigger] disks@[j]).0@) ==> disks@[j].0@.len()
                            < best_len
                },
                None => forall|j: int| 0 <= j < i ==> !path_has_prefix(db_path@, (#[trigger] disks@[j]).0@),
            },
        decreases disks@.len() - i,
    {
        let (mount, _) = &disks[i];
        if path_starts_with(db_path, mount.as_str()) {
            let len = mount.as_str().unicode_len();
            let pick = match best {
                None => true,
                Some(_) => len > best_len,
            };
            if pick {
                best = Some(i);
                best_len = len;
            }
        }
        i = i + 1;
    }
    match best {
        Some(k) => {
            proof {
                assert(best_mount(db_path@, disks@, k as int));
            }
            disks[k].1
        },
        None => {
            0
        },
    }
}

/// The pure part of `compute_projector_lag_sec`: seconds from the oldest pending
/// event's wall-clock time to now, never negative; 0 when there is no such event.
pub fn projector_lag_from(oldest_pending_local_secs: Option<i64>, now_local_secs: i64) -> (r: i64)
    requires
        oldest_pending_local_secs matches Some(o) ==> -10_000_000_000_000 <= o
            <= 10_000_000_000_000,
        -10_000_000_000_000 <= now_local_secs <= 10_000_000_000_000,
    ensures
        r == match oldest_pending_local_secs {
            Some(o) => if now_local_secs - o > 0 {
                now_local_secs - o
            } else {
                0
            },
            None => 0,
        },
{
    match oldest_pending_local_secs {
        Some(o) => {
            let d = now_local_secs - o;
            if d > 0 {
                d
            } else {
                0
            }
        },
        None => 0,
    }
}

} // verus!
