//! Platform identification and engine binary resolution order.
//!
//! The engine binary is located by probing, in order: an explicit path
//! override, the configured installation directory keyed by a platform
//! identifier of the form `<os>-<arch>`, then that directory directly.
//! This module computes the identifier and the ordered candidate list
//! from plain values; probing the file system and reading the
//! environment stay outside the library.

use vstd::prelude::*;

use crate::wire::{append_bytes, bytes_eq, read_range};

verus! {

/// The operating-system part of the platform identifier. Every name
/// passes through unchanged; the function exists so the identifier's
/// two parts read alike.
pub open spec fn spec_os_id(os: Seq<u8>) -> Seq<u8> {
    os
}

/// The canonical spelling of a processor architecture: `x86_64` becomes
/// `x86-64`, `aarch64` becomes `arm64`, anything else passes through.
pub open spec fn spec_arch_id(arch: Seq<u8>) -> Seq<u8> {
    if arch == seq![120u8, 56u8, 54u8, 95u8, 54u8, 52u8] {
        seq![120u8, 56u8, 54u8, 45u8, 54u8, 52u8]
    } else if arch == seq![97u8, 97u8, 114u8, 99u8, 104u8, 54u8, 52u8] {
        seq![97u8, 114u8, 109u8, 54u8, 52u8]
    } else {
        arch
    }
}

/// The platform identifier: the canonical operating-system name, a dash,
/// and the canonical architecture name.
pub open spec fn spec_platform_id(os: Seq<u8>, arch: Seq<u8>) -> Seq<u8> {
    spec_os_id(os) + seq![45u8] + spec_arch_id(arch)
}

/// Build the platform identifier string of the form `<os>-<arch>` from
/// the running system's operating-system and architecture names.
pub fn get_platform_id(os: &Vec<u8>, arch: &Vec<u8>) -> (r: Vec<u8>)
    ensures
        r@ == spec_platform_id(os@, arch@),
{
    let mut x86: Vec<u8> = Vec::new();
    x86.push(120u8);
    x86.push(56u8);
    x86.push(54u8);
    x86.push(95u8);
    x86.push(54u8);
    x86.push(52u8);
    proof {
        assert(x86@ =~= seq![120u8, 56u8, 54u8, 95u8, 54u8, 52u8]);
    }
    let mut aarch: Vec<u8> = Vec::new();
    aarch.push(97u8);
    aarch.push(97u8);
    aarch.push(114u8);
    aarch.push(99u8);
    aarch.push(104u8);
    aarch.push(54u8);
    aarch.push(52u8);
    proof {
        assert(aarch@ =~= seq![97u8, 97u8, 114u8, 99u8, 104u8, 54u8, 52u8]);
    }

    let mapped_arch: Vec<u8> = if bytes_eq(arch, &x86) {
        let mut m: Vec<u8> = Vec::new();
        m.push(120u8);
        m.push(56u8);
        m.push(54u8);
        m.push(45u8);
        m.push(54u8);
        m.push(52u8);
        proof {
            assert(m@ =~= seq![120u8, 56u8, 54u8, 45u8, 54u8, 52u8]);
        }
        m
    } else if bytes_eq(arch, &aarch) {
        let mut m: Vec<u8> = Vec::new();
        m.push(97u8);
        m.push(114u8);
        m.push(109u8);
        m.push(54u8);
        m.push(52u8);
        proof {
            assert(m@ =~= seq![97u8, 114u8, 109u8, 54u8, 52u8]);
        }
        m
    } else {
        read_range(arch, 0, arch.len())
    };
    proof {
        assert(arch@.subrange(0, arch@.len() as int) =~= arch@);
        assert(mapped_arch@ == spec_arch_id(arch@));
    }

    let mut r = read_range(os, 0, os.len());
    proof {
        assert(os@.subrange(0, os@.len() as int) =~= os@);
    }
    r.push(45u8);
    append_bytes(&mut r, &mapped_arch);
    proof {
        assert(r@ =~= spec_platform_id(os@, arch@));
    }
    r
}

/// `dir` extended by a path separator and `name`.
pub open spec fn spec_path_join(dir: Seq<u8>, name: Seq<u8>) -> Seq<u8> {
    dir + seq![47u8] + name
}

/// Join a directory and a file name with a path separator.
pub fn path_join(dir: &Vec<u8>, name: &Vec<u8>) -> (r: Vec<u8>)
    ensures
        r@ == spec_path_join(dir@, name@),
{
    let mut r = read_range(dir, 0, dir.len());
    proof {
        assert(dir@.subrange(0, dir@.len() as int) =~= dir@);
    }
    r.push(47u8);
    append_bytes(&mut r, name);
    proof {
        assert(r@ =~= spec_path_join(dir@, name@));
    }
    r
}

/// The ordered list of paths at which the engine binary may live: the
/// explicit override first when one is set and non-empty, then — when an
/// installation directory is configured — that directory keyed by the
/// platform identifier, then the directory directly. The first candidate
/// that names an existing file wins; probing is the caller's part.
pub fn engine_binary_candidates(
    override_path: &Option<Vec<u8>>,
    engine_dir: &Option<Vec<u8>>,
    platform_id: &Vec<u8>,
    exe_name: &Vec<u8>,
) -> (r: Vec<Vec<u8>>)
    ensures
        ({
            let head: Seq<Seq<u8>> = match override_path {
                Some(p) => if p@.len() > 0 {
                    seq![p@]
                } else {
                    Seq::empty()
                },
                None => Seq::empty(),
            };
            let tail: Seq<Seq<u8>> = match engine_dir {
                Some(d) => seq![
                    spec_path_join(spec_path_join(d@, platform_id@), exe_name@),
                    spec_path_join(d@, exe_name@),
                ],
                None => Seq::empty(),
            };
            r@.map_values(|v: Vec<u8>| v@) == head + tail
        }),
{
    let mut r: Vec<Vec<u8>> = Vec::new();
    match override_path {
        Some(p) => {
            if p.len() > 0 {
                let copy = read_range(p, 0, p.len());
                proof {
                    assert(p@.subrange(0, p@.len() as int) =~= p@);
                }
                r.push(copy);
            }
        },
        None => {},
    }
    match engine_dir {
        Some(d) => {
            let platform_dir = path_join(d, platform_id);
            let platform_candidate = path_join(&platform_dir, exe_name);
            r.push(platform_candidate);
            let fallback = path_join(d, exe_name);
            r.push(fallback);
        },
        None => {},
    }
    proof {
        assert(r@.map_values(|v: Vec<u8>| v@) =~= ({
            let head: Seq<Seq<u8>> = match override_path {
                Some(p) => if p@.len() > 0 {
                    seq![p@]
                } else {
                    Seq::empty()
                },
                None => Seq::empty(),
            };
            let tail: Seq<Seq<u8>> = match engine_dir {
                Some(d) => seq![
                    spec_path_join(spec_path_join(d@, platform_id@), exe_name@),
                    spec_path_join(d@, exe_name@),
                ],
                None => Seq::empty(),
            };
            head + tail
        }));
    }
    r
}

/// The engine executable's file name for the given platform flavour.
pub fn pivot_engine_executable_name(windows: bool) -> (r: Vec<u8>)
    ensures
        windows ==> r@ == seq![
            112u8, 105u8, 118u8, 111u8, 116u8, 95u8, 101u8, 110u8, 103u8, 105u8, 110u8, 101u8, 46u8, 101u8,
            120u8, 101u8,
        ],
        !windows ==> r@ == seq![
            112u8, 105u8, 118u8, 111u8, 116u8, 95u8, 101u8, 110u8, 103u8, 105u8, 110u8, 101u8,
        ],
{
    let mut r: Vec<u8> = Vec::new();
    r.push(112u8);
    r.push(105u8);
    r.push(118u8);
    r.push(111u8);
    r.push(116u8);
    r.push(95u8);
    r.push(101u8);
    r.push(110u8);
    r.push(103u8);
    r.push(105u8);
    r.push(110u8);
    r.push(101u8);
    if windows {
        r.push(46u8);
        r.push(101u8);
        r.push(120u8);
        r.push(101u8);
        proof {
            assert(r@ =~= seq![
                112u8, 105u8, 118u8, 111u8, 116u8, 95u8, 101u8, 110u8, 103u8, 105u8, 110u8, 101u8, 46u8, 101u8,
                120u8, 101u8,
            ]);
        }
    } else {
        proof {
            assert(r@ =~= seq![
                112u8, 105u8, 118u8, 111u8, 116u8, 95u8, 101u8, 110u8, 103u8, 105u8, 110u8, 101u8,
            ]);
        }
    }
    r
}

} // verus!
