//! The rules a deployment request must follow before anything is sent.

use vstd::prelude::*;

use crate::error::{is_validation, GridError};
use crate::live::types::{
    FullNetworkTarget, NetworkTarget, VmDeployment, VmLightDeployment, VolumeMountSpec,
};
use crate::text::{all_ws, ends_with, is_blank, lemma_split_on_nonempty, split_on, str_ends_with};

verus! {

/// The address a VM takes in `subnet`: host 5 of the subnet's first three
/// octets. `None` when the subnet has no `/` or its address part does not
/// have exactly four dot-separated parts.
pub open spec fn vm_ip_of(subnet: Seq<char>) -> Option<Seq<char>> {
    if !subnet.contains('/') {
        None
    } else {
        let parts = split_on(split_on(subnet, '/')[0], '.');
        if parts.len() != 4 {
            None
        } else {
            Some(parts[0] + "."@ + parts[1] + "."@ + parts[2] + ".5"@)
        }
    }
}

/// The message of a refused subnet.
pub open spec fn invalid_subnet_message(subnet: Seq<char>) -> Seq<char> {
    "invalid subnet: "@ + subnet
}

proof fn lemma_split_first_piece(s: Seq<char>, c: char, p: int)
    requires
        0 <= p < s.len(),
        s[p] == c,
        forall|j: int| 0 <= j < p ==> #[trigger] s[j] != c,
    ensures
        split_on(s, c)[0] == s.take(p),
    decreases s.len(),
{
    lemma_split_on_nonempty(s.drop_last(), c);
    if p < s.len() - 1 {
        assert(s.drop_last()[p] == c);
        assert forall|j: int| 0 <= j < p implies #[trigger] s.drop_last()[j] != c by {
            assert(s.drop_last()[j] == s[j]);
        }
        lemma_split_first_piece(s.drop_last(), c, p);
        lemma_split_on_nonempty(s.drop_last().drop_last(), c);
        assert(s.drop_last().take(p) =~= s.take(p));
        if s.last() != c {
            let rest = split_on(s.drop_last(), c);
            if rest.len() == 1 {
                // the last piece would contain position p, which holds `c`
                lemma_split_single_piece(s.drop_last(), c);
                assert(s.drop_last()[p] != c);
            }
        }
    } else {
        // the first `c` is the last character
        lemma_split_no_sep(s.drop_last(), c);
        assert(s.drop_last() =~= s.take(p));
    }
}

proof fn lemma_split_no_sep(s: Seq<char>, c: char)
    requires
        forall|j: int| 0 <= j < s.len() ==> #[trigger] s[j] != c,
    ensures
        split_on(s, c) == seq![s],
    decreases s.len(),
{
    if s.len() > 0 {
        assert forall|j: int| 0 <= j < s.drop_last().len() implies #[trigger] s.drop_last()[j] != c by {
            assert(s.drop_last()[j] == s[j]);
        }
        lemma_split_no_sep(s.drop_last(), c);
        assert(s.drop_last().push(s.last()) =~= s);
        assert(seq![s.drop_last()].update(0, s.drop_last().push(s.last())) =~= seq![s]);
    } else {
        assert(s =~= Seq::<char>::empty());
    }
}

proof fn lemma_split_single_piece(s: Seq<char>, c: char)
    requires
        split_on(s, c).len() == 1,
    ensures
        forall|j: int| 0 <= j < s.len() ==> #[trigger] s[j] != c,
    decreases s.len(),
{
    if s.len() > 0 {
        lemma_split_on_nonempty(s.drop_last(), c);
        lemma_split_single_piece(s.drop_last(), c);
        assert forall|j: int| 0 <= j < s.len() implies #[trigger] s[j] != c by {
            if j < s.len() - 1 {
                assert(s.drop_last()[j] == s[j]);
            }
        }
    }
}

/// The address a VM takes in `subnet` (see [`vm_ip_of`]).
pub fn vm_ip_from_subnet(subnet: &str) -> (r: Result<String, GridError>)
    ensures
        match vm_ip_of(subnet@) {
            Some(ip) => r matches Ok(s) && s@ == ip,
            None => r matches Err(e) && is_validation(e, invalid_subnet_message(subnet@)),
        },
{
    let n = subnet.unicode_len();
    let mut p: usize = 0;
    while p < n && subnet.get_char(p) != '/'
        invariant
            n == subnet@.len(),
            p <= n,
            forall|j: int| 0 <= j < p ==> #[trigger] subnet@[j] != '/',
        decreases n - p,
    {
        p = p + 1;
    }
    if p == n {
        proof {
            assert forall|j: int| 0 <= j < subnet@.len() implies #[trigger] subnet@[j] != '/' by {}
            assert(!subnet@.contains('/'));
        }
        return Err(GridError::Validation(String::from_str("invalid subnet: ").concat(subnet)));
    }
    proof {
        lemma_split_first_piece(subnet@, '/', p as int);
        assert(subnet@.contains('/'));
    }
    let ghost base = subnet@.take(p as int);
    // the dot-separated pieces of base, as (start, end) positions
    let mut starts: Vec<usize> = Vec::new();
    let mut ends: Vec<usize> = Vec::new();
    let mut start: usize = 0;
    let mut i: usize = 0;
    proof {
        assert(base.take(0) =~= Seq::<char>::empty());
    }
    while i < p
        invariant
            n == subnet@.len(),
            p < n,
            base == subnet@.take(p as int),
            start <= i <= p,
            starts@.len() == ends@.len(),
            forall|k: int| 0 <= k < starts@.len() ==> #[trigger] starts@[k] <= ends@[k],
            forall|k: int| 0 <= k < ends@.len() ==> #[trigger] ends@[k] <= i,
            split_on(base.take(i as int), '.') == Seq::new(starts@.len() as nat, |k: int| base.subrange(starts@[k] as int, ends@[k] as int)).push(
                base.subrange(start as int, i as int)),
        decreases p - i,
    {
        let ghost old_pieces = Seq::new(starts@.len() as nat, |k: int| base.subrange(starts@[k] as int, ends@[k] as int));
        let ghost old_start = start;
        assert(base.take(i + 1).drop_last() =~= base.take(i as int));
        assert(base.take(i + 1).last() == subnet@[i as int]);
        if subnet.get_char(i) == '.' {
            let ghost old_starts = starts@;
            let ghost old_ends = ends@;
            starts.push(start);
            ends.push(i);
            proof {
                assert forall|k: int| 0 <= k < starts@.len() implies #[trigger] starts@[k] <= ends@[k] by {
                    if k < old_starts.len() {
                        assert(starts@[k] == old_starts[k]);
                        assert(ends@[k] == old_ends[k]);
                    }
                }
                assert forall|k: int| 0 <= k < ends@.len() implies #[trigger] ends@[k] <= i + 1 by {
                    if k < old_ends.len() {
                        assert(ends@[k] == old_ends[k]);
                    }
                }
            }
            start = i + 1;
            proof {
                let new_pieces = Seq::new(starts@.len() as nat, |k: int| base.subrange(starts@[k] as int, ends@[k] as int));
                assert(new_pieces =~= old_pieces.push(base.subrange(old_start as int, i as int)));
                assert(base.subrange(start as int, i + 1) =~= Seq::<char>::empty());
            }
        } else {
            proof {
                let pieces = old_pieces.push(base.subrange(start as int, i as int));
                assert(base.subrange(start as int, i + 1) =~= base.subrange(start as int, i as int).push(subnet@[i as int]));
                assert(pieces.update(pieces.len() - 1, pieces.last().push(subnet@[i as int])) =~= old_pieces.push(
                    base.subrange(start as int, i + 1)));
            }
        }
        i = i + 1;
    }
    assert(base.take(p as int) =~= base);
    if starts.len() != 3 {
        return Err(GridError::Validation(String::from_str("invalid subnet: ").concat(subnet)));
    }
    let first = subnet.substring_char(starts[0], ends[0]);
    let second = subnet.substring_char(starts[1], ends[1]);
    let third = subnet.substring_char(starts[2], ends[2]);
    proof {
        assert(base.subrange(starts@[0] as int, ends@[0] as int) =~= subnet@.subrange(starts@[0] as int, ends@[0] as int));
        assert(base.subrange(starts@[1] as int, ends@[1] as int) =~= subnet@.subrange(starts@[1] as int, ends@[1] as int));
        assert(base.subrange(starts@[2] as int, ends@[2] as int) =~= subnet@.subrange(starts@[2] as int, ends@[2] as int));
    }
    let ip = String::from_str(first).concat(".").concat(second).concat(".").concat(third).concat(".5");
    Ok(ip)
}

/// The first broken rule of a volume, if any.
pub open spec fn volume_error(v: VolumeMountSpec) -> Option<Seq<char>> {
    if all_ws(v.name@) {
        Some("volume name must not be empty"@)
    } else if v.size_bytes == 0 {
        Some("volume size_bytes must be greater than zero"@)
    } else if all_ws(v.mountpoint@) {
        Some("volume mountpoint must not be empty"@)
    } else {
        None
    }
}

/// The first broken rule among volumes, in order.
pub open spec fn volumes_error(vs: Seq<VolumeMountSpec>) -> Option<Seq<char>>
    decreases vs.len(),
{
    if vs.len() == 0 {
        None
    } else if volume_error(vs[0]) is Some {
        volume_error(vs[0])
    } else {
        volumes_error(vs.drop_first())
    }
}

/// The first broken rule of an existing network target, if any.
pub open spec fn existing_network_error(name: Seq<char>, ip: Seq<char>) -> Option<Seq<char>> {
    if all_ws(name) {
        Some("existing network name must not be empty"@)
    } else if all_ws(ip) {
        Some("existing network ip must not be empty"@)
    } else {
        None
    }
}

/// The first broken rule of a subnet choice, if any.
pub open spec fn subnet_error(subnet: Option<String>) -> Option<Seq<char>> {
    match subnet {
        Some(s) => if vm_ip_of(s@) is None {
            Some(invalid_subnet_message(s@))
        } else {
            None
        },
        None => None,
    }
}

/// The first broken rule of a `vm-light` request, in the order the checks run.
pub open spec fn vm_light_request_error(r: VmLightDeployment) -> Option<Seq<char>> {
    if r.vm.cpu == 0 {
        Some("vm cpu must be greater than zero"@)
    } else if r.vm.memory_bytes == 0 {
        Some("vm memory_bytes must be greater than zero"@)
    } else if r.vm.rootfs_size_bytes == 0 {
        Some("vm rootfs_size_bytes must be greater than zero"@)
    } else if all_ws(r.vm.flist@) {
        Some("vm flist must not be empty"@)
    } else if all_ws(r.vm.entrypoint@) {
        Some("vm entrypoint must not be empty"@)
    } else if volumes_error(r.vm.volumes@) is Some {
        volumes_error(r.vm.volumes@)
    } else {
        match r.network {
            NetworkTarget::Create(net) => {
                if net.name matches Some(name) && all_ws(name@) {
                    Some("network name must not be empty"@)
                } else {
                    subnet_error(net.subnet)
                }
            },
            NetworkTarget::Existing(e) => existing_network_error(e.name@, e.ip@),
        }
    }
}

/// The first broken rule of a full VM request, in the order the checks run.
pub open spec fn vm_request_error(r: VmDeployment) -> Option<Seq<char>> {
    if r.vm.cpu == 0 {
        Some("vm cpu must be greater than zero"@)
    } else if r.vm.memory_bytes == 0 {
        Some("vm memory_bytes must be greater than zero"@)
    } else if r.vm.rootfs_size_bytes == 0 {
        Some("vm rootfs_size_bytes must be greater than zero"@)
    } else if all_ws(r.vm.flist@) {
        Some("vm flist must not be empty"@)
    } else if volumes_error(r.vm.volumes@) is Some {
        volumes_error(r.vm.volumes@)
    } else {
        match r.network {
            FullNetworkTarget::Create(net) => {
                if net.ip_range matches Some(range) && !ends_with(range@, "/16"@) {
                    Some("network ip_range must be a /16"@)
                } else {
                    subnet_error(net.subnet)
                }
            },
            FullNetworkTarget::Existing(e) => existing_network_error(e.name@, e.ip@),
        }
    }
}

fn check_volumes(volumes: &Vec<VolumeMountSpec>) -> (r: Result<(), GridError>)
    ensures
        match volumes_error(volumes@) {
            None => r is Ok,
            Some(m) => r matches Err(e) && is_validation(e, m),
        },
{
    let mut i: usize = 0;
    assert(volumes@.skip(0) =~= volumes@);
    while i < volumes.len()
        invariant
            i <= volumes@.len(),
            volumes_error(volumes@) == volumes_error(volumes@.skip(i as int)),
        decreases volumes.len() - i,
    {
        let ghost rest = volumes@.skip(i as int);
        assert(rest[0] == volumes@[i as int]);
        assert(rest.drop_first() =~= volumes@.skip(i + 1));
        let volume = &volumes[i];
        if is_blank(volume.name.as_str()) {
            return Err(GridError::validation("volume name must not be empty"));
        }
        if volume.size_bytes == 0 {
            return Err(GridError::validation("volume size_bytes must be greater than zero"));
        }
        if is_blank(volume.mountpoint.as_str()) {
            return Err(GridError::validation("volume mountpoint must not be empty"));
        }
        i = i + 1;
    }
    assert(volumes@.skip(i as int) =~= Seq::<VolumeMountSpec>::empty());
    Ok(())
}

fn check_subnet(subnet: &Option<String>) -> (r: Result<(), GridError>)
    ensures
        match subnet_error(*subnet) {
            None => r is Ok,
            Some(m) => r matches Err(e) && is_validation(e, m),
        },
{
    match subnet {
        Some(s) => match vm_ip_from_subnet(s.as_str()) {
            Ok(_) => Ok(()),
            Err(e) => Err(e),
        },
        None => Ok(()),
    }
}

fn check_existing(name: &String, ip: &String) -> (r: Result<(), GridError>)
    ensures
        match existing_network_error(name@, ip@) {
            None => r is Ok,
            Some(m) => r matches Err(e) && is_validation(e, m),
        },
{
    if is_blank(name.as_str()) {
        return Err(GridError::validation("existing network name must not be empty"));
    }
    if is_blank(ip.as_str()) {
        return Err(GridError::validation("existing network ip must not be empty"));
    }
    Ok(())
}

/// Checks a `vm-light` request; the error names the first broken rule.
pub fn validate_vm_light_request(request: &VmLightDeployment) -> (r: Result<(), GridError>)
    ensures
        match vm_light_request_error(*request) {
            None => r is Ok,
            Some(m) => r matches Err(e) && is_validation(e, m),
        },
{
    if request.vm.cpu == 0 {
        return Err(GridError::validation("vm cpu must be greater than zero"));
    }
    if request.vm.memory_bytes == 0 {
        return Err(GridError::validation("vm memory_bytes must be greater than zero"));
    }
    if request.vm.rootfs_size_bytes == 0 {
        return Err(GridError::validation("vm rootfs_size_bytes must be greater than zero"));
    }
    if is_blank(request.vm.flist.as_str()) {
        return Err(GridError::validation("vm flist must not be empty"));
    }
    if is_blank(request.vm.entrypoint.as_str()) {
        return Err(GridError::validation("vm entrypoint must not be empty"));
    }
    check_volumes(&request.vm.volumes)?;
    match &request.network {
        NetworkTarget::Create(network) => {
            if let Some(name) = &network.name {
                if is_blank(name.as_str()) {
                    return Err(GridError::validation("network name must not be empty"));
                }
            }
            check_subnet(&network.subnet)
        },
        NetworkTarget::Existing(existing) => check_existing(&existing.name, &existing.ip),
    }
}

/// Checks a full VM request; the error names the first broken rule.
pub fn validate_vm_request(request: &VmDeployment) -> (r: Result<(), GridError>)
    ensures
        match vm_request_error(*request) {
            None => r is Ok,
            Some(m) => r matches Err(e) && is_validation(e, m),
        },
{
    if request.vm.cpu == 0 {
        return Err(GridError::validation("vm cpu must be greater than zero"));
    }
    if request.vm.memory_bytes == 0 {
        return Err(GridError::validation("vm memory_bytes must be greater than zero"));
    }
    if request.vm.rootfs_size_bytes == 0 {
        return Err(GridError::validation("vm rootfs_size_bytes must be greater than zero"));
    }
    if is_blank(request.vm.flist.as_str()) {
        return Err(GridError::validation("vm flist must not be empty"));
    }
    check_volumes(&request.vm.volumes)?;
    match &request.network {
        FullNetworkTarget::Create(network) => {
            if let Some(ip_range) = &network.ip_range {
                if !str_ends_with(ip_range.as_str(), "/16") {
                    return Err(GridError::validation("network ip_range must be a /16"));
                }
            }
            check_subnet(&network.subnet)
        },
        FullNetworkTarget::Existing(existing) => check_existing(&existing.name, &existing.ip),
    }
}

} // verus!
