//! The task coordinator: deduplicates concurrent generation requests per
//! image key, records which consumers wait on each in-flight computation,
//! and reconciles completed results into the image store exactly once.
//!
//! The host runs the workers and the scheduling tick; every decision -
//! whether to spawn, whom to notify, what to splice where - is made here,
//! over explicit stores passed by reference.

use vstd::prelude::*;

use std::collections::HashMap;

use crate::cache::{spec_bytes_to_gb, CachedDataSize};
use crate::texture::{check_image_compatible, Image};

verus! {

broadcast use vstd::std_specs::hash::group_hash_axioms;

/// Marker for consumers that opted out of mipmap generation: materials so
/// flagged are skipped entirely by every generation pass.
pub struct NoMipmapGeneration;

/// What a finished worker hands back: the generated image and how many
/// bytes the computation added to the cache.
pub struct TaskData {
    pub added_cache_size: usize,
    pub image: Image,
}

/// The pending set: for each image key with an in-flight computation, the
/// consumers (material keys) waiting on its completion. The computation
/// handle itself lives with the host, keyed identically.
pub struct MipmapTasks {
    pub tasks: HashMap<u64, Vec<u64>>,
}

impl MipmapTasks {
    /// The pending entries as a map from image key to waiting consumers.
    pub open spec fn view(self) -> Map<u64, Seq<u64>> {
        Map::new(|k: u64| self.tasks@.dom().contains(k), |k: u64| self.tasks@[k]@)
    }

    pub fn new() -> (r: Self)
        ensures
            r@ == Map::<u64, Seq<u64>>::empty(),
    {
        let r = MipmapTasks { tasks: HashMap::new() };
        proof {
            assert(r@ =~= Map::<u64, Seq<u64>>::empty());
        }
        r
    }
}

/// Consumers that can name the images they depend on. The host implements
/// this for each material type it wants processed.
pub trait GetImages {
    /// The image keys this consumer depends on.
    spec fn spec_images(&self) -> Seq<u64>;

    /// Returns exactly the image keys this consumer depends on.
    fn get_images(&self) -> (r: Vec<u64>)
        ensures
            r@ == self.spec_images(),
    ;
}

/// The image keys of one optional texture slot.
pub open spec fn spec_slot(slot: Option<u64>) -> Seq<u64> {
    match slot {
        Some(id) => seq![id],
        None => Seq::empty(),
    }
}

/// A standard material: five optional texture slots.
pub struct StandardMaterial {
    pub base_color_texture: Option<u64>,
    pub emissive_texture: Option<u64>,
    pub metallic_roughness_texture: Option<u64>,
    pub normal_map_texture: Option<u64>,
    pub occlusion_texture: Option<u64>,
}

impl GetImages for StandardMaterial {
    open spec fn spec_images(&self) -> Seq<u64> {
        spec_slot(self.base_color_texture) + spec_slot(self.emissive_texture) + spec_slot(
            self.metallic_roughness_texture,
        ) + spec_slot(self.normal_map_texture) + spec_slot(self.occlusion_texture)
    }

    fn get_images(&self) -> (r: Vec<u64>) {
        let mut r: Vec<u64> = Vec::new();
        if let Some(id) = self.base_color_texture {
            r.push(id);
        }
        if let Some(id) = self.emissive_texture {
            r.push(id);
        }
        if let Some(id) = self.metallic_roughness_texture {
            r.push(id);
        }
        if let Some(id) = self.normal_map_texture {
            r.push(id);
        }
        if let Some(id) = self.occlusion_texture {
            r.push(id);
        }
        proof {
            assert(r@ =~= self.spec_images());
        }
        r
    }
}

/// An image is eligible for generation when it is present, still has a
/// single mip level, and passes the compatibility check.
pub open spec fn spec_eligible(images: Map<u64, Image>, image_id: u64) -> bool {
    &&& images.contains_key(image_id)
    &&& images[image_id].mip_level_count == 1
    &&& images[image_id].spec_compatible()
}

/// One generation request: attach to the pending entry if one exists,
/// spawn a new computation if the image is eligible, do nothing otherwise.
/// Returns the new pending set and whether a computation was spawned.
pub open spec fn spec_request_transition(
    tasks: Map<u64, Seq<u64>>,
    images: Map<u64, Image>,
    image_id: u64,
    material_id: u64,
) -> (Map<u64, Seq<u64>>, bool) {
    if tasks.contains_key(image_id) {
        (tasks.insert(image_id, tasks[image_id].push(material_id)), false)
    } else if spec_eligible(images, image_id) {
        (tasks.insert(image_id, seq![material_id]), true)
    } else {
        (tasks, false)
    }
}

fn image_eligible(images: &HashMap<u64, Image>, image_id: u64) -> (r: bool)
    ensures
        r == spec_eligible(images@, image_id),
{
    match images.get(&image_id) {
        Some(image) => image.mip_level_count == 1 && check_image_compatible(image).is_ok(),
        None => false,
    }
}

/// Registers one consumer's request for one image. At most one computation
/// is ever in flight per image key: a request for an already pending image
/// only appends the consumer to that entry.
pub fn request_generation(
    tasks: &mut MipmapTasks,
    images: &HashMap<u64, Image>,
    image_id: u64,
    material_id: u64,
) -> (spawned: bool)
    ensures
        final(tasks)@ == spec_request_transition(old(tasks)@, images@, image_id, material_id).0,
        spawned == spec_request_transition(old(tasks)@, images@, image_id, material_id).1,
{
    let ghost prev = tasks@;
    if tasks.tasks.contains_key(&image_id) {
        let mut consumers = match tasks.tasks.remove(&image_id) {
            Some(c) => c,
            None => Vec::new(),
        };
        consumers.push(material_id);
        tasks.tasks.insert(image_id, consumers);
        proof {
            assert(tasks@ =~= prev.insert(image_id, prev[image_id].push(material_id)));
        }
        false
    } else if image_eligible(images, image_id) {
        let mut consumers: Vec<u64> = Vec::new();
        consumers.push(material_id);
        tasks.tasks.insert(image_id, consumers);
        proof {
            assert(tasks@ =~= prev.insert(image_id, seq![material_id]));
        }
        true
    } else {
        false
    }
}

/// The consumers notified when the computation for `image_id` completes:
/// the entry's waiting list, provided the image still exists to receive
/// the result.
pub open spec fn spec_complete_notified(
    tasks: Map<u64, Seq<u64>>,
    images: Map<u64, Image>,
    image_id: u64,
) -> Seq<u64> {
    if images.contains_key(image_id) && tasks.contains_key(image_id) {
        tasks[image_id]
    } else {
        Seq::empty()
    }
}

/// The running cache total after a completion, saturating at the counter's
/// range.
pub open spec fn spec_counter_after(counter: nat, added: nat) -> nat {
    if counter + added <= usize::MAX {
        counter + added
    } else {
        usize::MAX as nat
    }
}

/// Law: the running cache total never decreases; completions only grow it.
pub proof fn lemma_counter_monotone(counter: nat, added: nat)
    requires
        counter <= usize::MAX,
    ensures
        spec_counter_after(counter, added) >= counter,
{
}

fn bytes_to_gb(bytes: usize) -> (r: usize)
    ensures
        r == spec_bytes_to_gb(bytes as nat),
{
    bytes / 0x40000000
}

/// Reconciles one finished computation: removes the pending entry exactly
/// once, splices the produced image into the store (or discards a stale
/// result whose image is gone, without failing), grows the cache counter,
/// and returns the consumers to notify together with whether the running
/// cache total crossed a 1 GiB boundary.
pub fn complete_task(
    tasks: &mut MipmapTasks,
    images: &mut HashMap<u64, Image>,
    cached_data_size: &mut CachedDataSize,
    image_id: u64,
    task_data: TaskData,
) -> (r: (Vec<u64>, bool))
    ensures
        final(tasks)@ == old(tasks)@.remove(image_id),
        old(images)@.contains_key(image_id) ==> {
            &&& final(images)@ == old(images)@.insert(image_id, task_data.image)
            &&& final(cached_data_size).0 == spec_counter_after(
                old(cached_data_size).0 as nat,
                task_data.added_cache_size as nat,
            )
            &&& r.0@ == spec_complete_notified(old(tasks)@, old(images)@, image_id)
            &&& r.1 == (spec_bytes_to_gb(final(cached_data_size).0 as nat) > spec_bytes_to_gb(
                old(cached_data_size).0 as nat,
            ))
        },
        !old(images)@.contains_key(image_id) ==> {
            &&& final(images)@ == old(images)@
            &&& final(cached_data_size).0 == old(cached_data_size).0
            &&& r.0@ == Seq::<u64>::empty()
            &&& r.1 == false
        },
{
    let ghost prev = tasks@;
    let consumers_opt = tasks.tasks.remove(&image_id);
    proof {
        assert(tasks@ =~= prev.remove(image_id));
    }
    if images.contains_key(&image_id) {
        images.insert(image_id, task_data.image);
        let prev_gb = bytes_to_gb(cached_data_size.0);
        if usize::MAX - cached_data_size.0 >= task_data.added_cache_size {
            cached_data_size.0 = cached_data_size.0 + task_data.added_cache_size;
        } else {
            cached_data_size.0 = usize::MAX;
        }
        let current_gb = bytes_to_gb(cached_data_size.0);
        let notified = match consumers_opt {
            Some(consumers) => consumers,
            None => Vec::new(),
        };
        (notified, current_gb > prev_gb)
    } else {
        (Vec::new(), false)
    }
}

/// One material's requests folded over its image list, leftmost first.
pub open spec fn spec_request_fold(
    tasks: Map<u64, Seq<u64>>,
    spawn: Seq<u64>,
    images: Map<u64, Image>,
    imgs: Seq<u64>,
    material_id: u64,
) -> (Map<u64, Seq<u64>>, Seq<u64>)
    decreases imgs.len(),
{
    if imgs.len() == 0 {
        (tasks, spawn)
    } else {
        let step = spec_request_transition(tasks, images, imgs[0], material_id);
        let spawn1 = if step.1 {
            spawn.push(imgs[0])
        } else {
            spawn
        };
        spec_request_fold(step.0, spawn1, images, imgs.skip(1), material_id)
    }
}

/// A whole tick's requests folded over the changed-material events, in
/// order: opted-out or missing materials contribute nothing; the rest
/// request every image they depend on.
pub open spec fn spec_events_fold<M: GetImages>(
    tasks: Map<u64, Seq<u64>>,
    spawn: Seq<u64>,
    images: Map<u64, Image>,
    materials: Map<u64, M>,
    no_mipmap: Seq<u64>,
    events: Seq<u64>,
) -> (Map<u64, Seq<u64>>, Seq<u64>)
    decreases events.len(),
{
    if events.len() == 0 {
        (tasks, spawn)
    } else {
        let m = events[0];
        let after = if !no_mipmap.contains(m) && materials.contains_key(m) {
            spec_request_fold(tasks, spawn, images, materials[m].spec_images(), m)
        } else {
            (tasks, spawn)
        };
        spec_events_fold(after.0, after.1, images, materials, no_mipmap, events.skip(1))
    }
}

fn contains_id(ids: &Vec<u64>, x: u64) -> (r: bool)
    ensures
        r == ids@.contains(x),
{
    let mut i: usize = 0;
    while i < ids.len()
        invariant
            i <= ids@.len(),
            forall|k: int| 0 <= k < i ==> ids@[k] != x,
        decreases ids@.len() - i,
    {
        if ids[i] == x {
            return true;
        }
        i = i + 1;
    }
    false
}

/// The request phase of one scheduling tick: for every changed material
/// that has not opted out, requests generation of each image it depends
/// on, attaching to pending entries and spawning at most one computation
/// per image key. Returns the image keys whose computations the host must
/// start; completions are reconciled per key through [`complete_task`].
pub fn generate_mipmaps<M: GetImages>(
    tasks: &mut MipmapTasks,
    material_events: &Vec<u64>,
    no_mipmap: &Vec<u64>,
    materials: &HashMap<u64, M>,
    images: &HashMap<u64, Image>,
) -> (spawn: Vec<u64>)
    ensures
        final(tasks)@ == spec_events_fold(
            old(tasks)@,
            Seq::empty(),
            images@,
            materials@,
            no_mipmap@,
            material_events@,
        ).0,
        spawn@ == spec_events_fold(
            old(tasks)@,
            Seq::empty(),
            images@,
            materials@,
            no_mipmap@,
            material_events@,
        ).1,
{
    let ghost total = spec_events_fold(
        tasks@,
        Seq::empty(),
        images@,
        materials@,
        no_mipmap@,
        material_events@,
    );
    let mut spawn: Vec<u64> = Vec::new();
    let mut e: usize = 0;
    proof {
        assert(material_events@.skip(0) =~= material_events@);
    }
    while e < material_events.len()
        invariant
            e <= material_events@.len(),
            total == spec_events_fold(
                tasks@,
                spawn@,
                images@,
                materials@,
                no_mipmap@,
                material_events@.skip(e as int),
            ),
        decreases material_events@.len() - e,
    {
        let ghost tasks_at_event = tasks@;
        let ghost spawn_at_event = spawn@;
        let material_id = material_events[e];
        if !contains_id(no_mipmap, material_id) {
            if let Some(material) = materials.get(&material_id) {
                let imgs = material.get_images();
                let ghost target = spec_request_fold(
                    tasks@,
                    spawn@,
                    images@,
                    imgs@,
                    material_id,
                );
                let mut j: usize = 0;
                proof {
                    assert(imgs@.skip(0) =~= imgs@);
                }
                while j < imgs.len()
                    invariant
                        j <= imgs@.len(),
                        target == spec_request_fold(
                            tasks@,
                            spawn@,
                            images@,
                            imgs@.skip(j as int),
                            material_id,
                        ),
                    decreases imgs@.len() - j,
                {
                    let image_id = imgs[j];
                    proof {
                        assert(imgs@.skip(j as int)[0] == imgs@[j as int]);
                        assert(imgs@.skip(j as int).skip(1) =~= imgs@.skip(j + 1));
                    }
                    let spawned = request_generation(tasks, images, image_id, material_id);
                    if spawned {
                        spawn.push(image_id);
                    }
                    j = j + 1;
                }
                proof {
                    assert(imgs@.skip(imgs@.len() as int) =~= Seq::<u64>::empty());
                }
            }
        }
        proof {
            assert(material_events@.skip(e as int)[0] == material_events@[e as int]);
            assert(material_events@.skip(e as int).skip(1) =~= material_events@.skip(e + 1));
        }
        e = e + 1;
    }
    proof {
        assert(material_events@.skip(material_events@.len() as int) =~= Seq::<u64>::empty());
    }
    spawn
}

/// Law: two generation requests for the same image key issued before the
/// first completes spawn exactly one computation, and the completion
/// notifies both consumers, in request order.
pub proof fn lemma_deduplicated_requests(
    tasks: Map<u64, Seq<u64>>,
    images: Map<u64, Image>,
    image_id: u64,
    first_consumer: u64,
    second_consumer: u64,
)
    requires
        !tasks.contains_key(image_id),
        spec_eligible(images, image_id),
    ensures
        ({
            let step1 = spec_request_transition(tasks, images, image_id, first_consumer);
            let step2 = spec_request_transition(step1.0, images, image_id, second_consumer);
            &&& step1.1 == true
            &&& step2.1 == false
            &&& spec_complete_notified(step2.0, images, image_id) == seq![
                first_consumer,
                second_consumer,
            ]
        }),
{
    let step1 = spec_request_transition(tasks, images, image_id, first_consumer);
    let step2 = spec_request_transition(step1.0, images, image_id, second_consumer);
    assert(step2.0[image_id] =~= seq![first_consumer, second_consumer]);
}

/// Law: a tick whose changed materials all carry the opt-out marker
/// changes no pending entry and spawns nothing; with completions the only
/// writers of the image store, no flagged consumer's image ever has its
/// level count changed by a generation pass.
pub proof fn lemma_opt_out_skipped<M: GetImages>(
    tasks: Map<u64, Seq<u64>>,
    spawn: Seq<u64>,
    images: Map<u64, Image>,
    materials: Map<u64, M>,
    no_mipmap: Seq<u64>,
    events: Seq<u64>,
)
    requires
        forall|i: int| 0 <= i < events.len() ==> no_mipmap.contains(#[trigger] events[i]),
    ensures
        spec_events_fold(tasks, spawn, images, materials, no_mipmap, events) == (tasks, spawn),
    decreases events.len(),
{
    if events.len() > 0 {
        assert(no_mipmap.contains(events[0]));
        assert forall|i: int| 0 <= i < events.skip(1).len() implies no_mipmap.contains(
            #[trigger] events.skip(1)[i],
        ) by {
            assert(events.skip(1)[i] == events[i + 1]);
        }
        lemma_opt_out_skipped(tasks, spawn, images, materials, no_mipmap, events.skip(1));
    }
}

} // verus!
