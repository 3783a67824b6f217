//! Docker image references: resolving names and the anchors that stand for them.

use vstd::prelude::*;
use vstd::string::*;
use crate::models::{Config, DockerImageConfig, lookup, find_entry, pairs_map, unique_keys, map_insert};
use crate::strutil::{contains_char, to_owned_string};

verus! {

broadcast use vstd::string::group_string_axioms;

/// A reference that already names a full image (it holds `:` or `/`).
pub open spec fn is_full_reference(image_ref: Seq<char>) -> bool {
    image_ref.contains(':') || image_ref.contains('/')
}

/// Why an image name could not be resolved.
pub open spec fn not_configured_message(image_ref: Seq<char>) -> Seq<char> {
    "Docker image '"@ + image_ref + "' not found - no docker_images configuration"@
}

/// Why an image name could not be resolved.
pub open spec fn not_found_message(image_ref: Seq<char>) -> Seq<char> {
    "Docker image '"@ + image_ref + "' not found in docker_images configuration"@
}

/// The image of a configured image for an architecture: its variant for that
/// architecture if there is one, else its default.
pub open spec fn image_for_arch(cfg: DockerImageConfig, architecture: Option<Seq<char>>) -> Seq<char> {
    match (architecture, cfg.architectures) {
        (Some(a), Some(arches)) => match lookup(arches@, a) {
            Some(img) => img@,
            None => cfg.default@,
        },
        _ => cfg.default@,
    }
}

/// What resolving `image_ref` gives.
pub open spec fn spec_resolve_docker_image(image_ref: Seq<char>, architecture: Option<Seq<char>>, config: Config) -> Result<Seq<char>, Seq<char>> {
    if is_full_reference(image_ref) {
        Ok(image_ref)
    } else {
        match config.docker_images {
            None => Err(not_configured_message(image_ref)),
            Some(images) => match lookup(images@, image_ref) {
                None => Err(not_found_message(image_ref)),
                Some(cfg) => Ok(image_for_arch(cfg, architecture)),
            },
        }
    }
}

/// The view of a string result.
pub open spec fn result_view(r: Result<String, String>) -> Result<Seq<char>, Seq<char>> {
    match r {
        Ok(s) => Ok(s@),
        Err(e) => Err(e@),
    }
}

/// Resolve a docker image reference to the actual image string for the given
/// architecture. A full reference is returned as it is; a name is looked up in
/// the configured images, and its variant for the architecture taken if there
/// is one, else its default.
pub fn resolve_docker_image(image_ref: &str, architecture: Option<&str>, config: &Config) -> (r: Result<String, String>)
    ensures
        result_view(r) == spec_resolve_docker_image(image_ref@, match architecture { Some(a) => Some(a@), None => None }, *config),
{
    if contains_char(image_ref, ':') || contains_char(image_ref, '/') {
        return Ok(to_owned_string(image_ref));
    }
    let images = match &config.docker_images {
        Some(images) => images,
        None => {
            let mut msg = to_owned_string("Docker image '");
            msg.append(image_ref);
            msg.append("' not found - no docker_images configuration");
            return Err(msg);
        },
    };
    let image_config = match find_entry(images, image_ref) {
        Some(c) => c,
        None => {
            let mut msg = to_owned_string("Docker image '");
            msg.append(image_ref);
            msg.append("' not found in docker_images configuration");
            return Err(msg);
        },
    };
    if let Some(arch) = architecture {
        if let Some(arch_images) = &image_config.architectures {
            if let Some(arch_image) = find_entry(arch_images, arch) {
                return Ok(to_owned_string(arch_image.as_str()));
            }
        }
    }
    Ok(to_owned_string(image_config.default.as_str()))
}

/// The anchors of one image's architecture variants, written in turn over `m`.
pub open spec fn arch_anchors(m: Map<Seq<char>, Seq<char>>, name: Seq<char>, arches: Seq<(String, String)>) -> Map<Seq<char>, Seq<char>>
    decreases arches.len(),
{
    if arches.len() == 0 {
        m
    } else {
        arch_anchors(m, name, arches.drop_last()).insert(name + "_image_"@ + arches.last().0@, arches.last().1@)
    }
}

/// The anchors of one image written over `m`: `<name>_image` for its default,
/// then `<name>_image_<arch>` for each variant.
pub open spec fn image_anchors(m: Map<Seq<char>, Seq<char>>, name: Seq<char>, cfg: DockerImageConfig) -> Map<Seq<char>, Seq<char>> {
    let with_default = m.insert(name + "_image"@, cfg.default@);
    match cfg.architectures {
        Some(arches) => arch_anchors(with_default, name, arches@),
        None => with_default,
    }
}

/// The anchors of the configured images, written in turn.
pub open spec fn anchors_of(images: Seq<(String, DockerImageConfig)>) -> Map<Seq<char>, Seq<char>>
    decreases images.len(),
{
    if images.len() == 0 {
        Map::empty()
    } else {
        image_anchors(anchors_of(images.drop_last()), images.last().0@, images.last().1)
    }
}

/// The anchors of the configuration's images (none without images).
pub open spec fn spec_docker_anchors(config: Config) -> Map<Seq<char>, Seq<char>> {
    match config.docker_images {
        Some(images) => anchors_of(images@),
        None => Map::empty(),
    }
}

/// The view of a map of strings.
pub open spec fn str_map_view(m: Map<Seq<char>, String>) -> Map<Seq<char>, Seq<char>> {
    m.map_values(|s: String| s@)
}

/// Generate CircleCI docker image anchors from the docker images configuration.
pub fn generate_docker_anchors(config: &Config) -> (r: Vec<(String, String)>)
    ensures
        unique_keys(r@),
        str_map_view(pairs_map(r@)) == spec_docker_anchors(*config),
{
    let mut anchors: Vec<(String, String)> = Vec::new();
    proof {
        assert(str_map_view(pairs_map(anchors@)) =~= Map::<Seq<char>, Seq<char>>::empty());
    }
    if let Some(docker_images) = &config.docker_images {
        let n = docker_images.len();
        let mut i: usize = 0;
        while i < n
            invariant
                n == docker_images@.len(),
                i <= n,
                unique_keys(anchors@),
                str_map_view(pairs_map(anchors@)) == anchors_of(docker_images@.subrange(0, i as int)),
            decreases n - i,
        {
            let name = &docker_images[i].0;
            let image_config = &docker_images[i].1;
            let ghost before = str_map_view(pairs_map(anchors@));
            let mut anchor_name = to_owned_string(name.as_str());
            anchor_name.append("_image");
            let ghost an = anchor_name@;
            let default_image = to_owned_string(image_config.default.as_str());
            let ghost dv = default_image@;
            map_insert(&mut anchors, anchor_name, default_image);
            proof {
                assert(str_map_view(pairs_map(anchors@)) =~= before.insert(an, dv));
            }
            let ghost with_default = before.insert(an, dv);
            if let Some(arch_images) = &image_config.architectures {
                let m = arch_images.len();
                let mut k: usize = 0;
                while k < m
                    invariant
                        m == arch_images@.len(),
                        k <= m,
                        unique_keys(anchors@),
                        str_map_view(pairs_map(anchors@)) == arch_anchors(with_default, name@, arch_images@.subrange(0, k as int)),
                    decreases m - k,
                {
                    let ghost b2 = str_map_view(pairs_map(anchors@));
                    let mut arch_anchor_name = to_owned_string(name.as_str());
                    arch_anchor_name.append("_image_");
                    arch_anchor_name.append(arch_images[k].0.as_str());
                    let ghost kn = arch_anchor_name@;
                    let img = to_owned_string(arch_images[k].1.as_str());
                    let ghost iv = img@;
                    map_insert(&mut anchors, arch_anchor_name, img);
                    proof {
                        assert(str_map_view(pairs_map(anchors@)) =~= b2.insert(kn, iv));
                        let sub = arch_images@.subrange(0, k + 1);
                        assert(sub.drop_last() =~= arch_images@.subrange(0, k as int));
                        assert(kn == name@ + "_image_"@ + sub.last().0@);
                    }
                    k = k + 1;
                }
                proof {
                    assert(arch_images@.subrange(0, m as int) =~= arch_images@);
                }
            }
            proof {
                let sub = docker_images@.subrange(0, i + 1);
                assert(sub.drop_last() =~= docker_images@.subrange(0, i as int));
                assert(sub.last() == docker_images@[i as int]);
            }
            i = i + 1;
        }
        proof {
            assert(docker_images@.subrange(0, n as int) =~= docker_images@);
        }
    }
    anchors
}

} // verus!
