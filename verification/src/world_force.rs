use vstd::prelude::*;
use crate::body_set::{Body, BodyHandle, BodySet};
use vstd::arithmetic::mul::lemma_mul_is_distributive_add_other_way;
use crate::math::{
    lemma_mul_abs_bound, ACC_LIMIT, FORCE_LIMIT, GAIN_LIMIT, GROUP_LIMIT, SCALE,
    STEP_FORCE_BUDGET,
};
use crate::rotation::{
    mat3_in_bounds, mat_val, rodrigues, rotate_step, rotate_vec, rotation_from_angles, vec_val,
    Mat3,
};
use crate::rules::{
    attractor_force, attractor_rule, implosion_force, implosion_rule, lemma_attractor_in_limit,
    lemma_implosion_in_limit, lemma_oscillation_in_limit, oscillation_force, oscillation_rule,
};
use crate::vec3::{force_in_limit, force_val, triple_add, triple_bounded, triple_scale,
    vec3_in_bounds, Force, Vec3};

verus! {

/// How many times `h` occurs in a group of body references.
pub open spec fn count_occ(s: Seq<BodyHandle>, h: BodyHandle) -> nat
    decreases s.len(),
{
    if s.len() == 0 {
        0
    } else {
        count_occ(s.drop_last(), h) + if s.last() == h {
            1nat
        } else {
            0nat
        }
    }
}

pub proof fn lemma_count_occ_bound(s: Seq<BodyHandle>, h: BodyHandle)
    ensures
        count_occ(s, h) <= s.len(),
    decreases s.len(),
{
    if s.len() > 0 {
        lemma_count_occ_bound(s.drop_last(), h);
    }
}

/// Extending a prefix of the group by its next reference raises the
/// count of exactly that reference by one.
pub proof fn lemma_count_occ_step(s: Seq<BodyHandle>, i: int, h: BodyHandle)
    requires
        0 <= i < s.len(),
    ensures
        count_occ(s.subrange(0, i + 1), h) == count_occ(s.subrange(0, i), h) + if s[i] == h {
            1int
        } else {
            0int
        },
{
    assert(s.subrange(0, i + 1).drop_last() =~= s.subrange(0, i));
    assert(s.subrange(0, i + 1).last() == s[i]);
}

/// One step of a force generator over `parts`: every body that was live
/// stays live with its position kept, every destroyed slot stays
/// destroyed, and every live body's accumulator has gained the rule's
/// force at its position, once per occurrence of its handle in the
/// group. References that resolve to no live body contribute nothing.
pub open spec fn forces_accumulated(
    pre: Seq<Option<Body>>,
    post: Seq<Option<Body>>,
    parts: Seq<BodyHandle>,
    rule: spec_fn(Vec3) -> (int, int, int),
) -> bool {
    &&& post.len() == pre.len()
    &&& forall|i: int| 0 <= i < pre.len() ==> ((#[trigger] post[i]) is Some <==> pre[i] is Some)
    &&& forall|i: int|
        0 <= i < pre.len() && pre[i] is Some ==> (#[trigger] post[i]).unwrap().position
            == pre[i].unwrap().position
    &&& forall|i: int|
        0 <= i < pre.len() && pre[i] is Some ==> force_val((#[trigger] post[i]).unwrap().force)
            == triple_add(
            force_val(pre[i].unwrap().force),
            triple_scale(
                count_occ(parts, BodyHandle(i as usize)) as int,
                rule(pre[i].unwrap().position),
            ),
        )
}

/// The variant-specific force rule of one generator, with the
/// parameters it was constructed with.
enum RuleKind {
    /// The oscillating field, at the phase the step started with.
    Oscillation { phase: u64, amplitude: u64 },
    /// The linear spring toward a fixed center.
    Implosion { center: Vec3, k: u64 },
    /// The inverse-square pull toward a center.
    Attraction { center: Vec3, strength: u64 },
}

/// The parameters of a rule are within the admitted ranges.
spec fn rule_wf(kind: RuleKind) -> bool {
    match kind {
        RuleKind::Oscillation { phase, amplitude } => phase < SCALE && amplitude <= GAIN_LIMIT,
        RuleKind::Implosion { center, k } => vec3_in_bounds(center) && k <= GAIN_LIMIT,
        RuleKind::Attraction { center, strength } => vec3_in_bounds(center) && strength
            <= GAIN_LIMIT,
    }
}

/// The force a rule assigns to a position.
spec fn rule_of(kind: RuleKind) -> spec_fn(Vec3) -> (int, int, int) {
    match kind {
        RuleKind::Oscillation { phase, amplitude } => |p: Vec3|
            oscillation_rule(p, phase as int, amplitude),
        RuleKind::Implosion { center, k } => |p: Vec3| implosion_rule(p, center, k),
        RuleKind::Attraction { center, strength } => |p: Vec3| attractor_rule(p, center, strength),
    }
}

proof fn lemma_rule_in_limit(kind: RuleKind, p: Vec3)
    requires
        rule_wf(kind),
        vec3_in_bounds(p),
    ensures
        force_in_limit(rule_of(kind)(p)),
{
    match kind {
        RuleKind::Oscillation { phase, amplitude } => {
            lemma_oscillation_in_limit(p, phase as int, amplitude);
        },
        RuleKind::Implosion { center, k } => {
            lemma_implosion_in_limit(p, center, k);
        },
        RuleKind::Attraction { center, strength } => {
            lemma_attractor_in_limit(p, center, strength);
        },
    }
}

/// Computes a rule's force at one position.
fn rule_force(kind: &RuleKind, p: &Vec3) -> (f: Force)
    requires
        rule_wf(*kind),
        vec3_in_bounds(*p),
    ensures
        force_val(f) == rule_of(*kind)(*p),
        force_in_limit(force_val(f)),
{
    match kind {
        RuleKind::Oscillation { phase, amplitude } => oscillation_force(p, *phase, *amplitude),
        RuleKind::Implosion { center, k } => implosion_force(p, center, *k),
        RuleKind::Attraction { center, strength } => attractor_force(p, center, *strength),
    }
}

/// Walks a group once and pushes the rule's force into every body
/// reference that still resolves, skipping the rest.
fn apply_rule(bodies: &mut BodySet, parts: &Vec<BodyHandle>, kind: &RuleKind)
    requires
        old(bodies).wf(),
        old(bodies).forces_bounded(ACC_LIMIT as int),
        parts@.len() <= GROUP_LIMIT,
        rule_wf(*kind),
    ensures
        final(bodies).wf(),
        forces_accumulated(old(bodies)@, final(bodies)@, parts@, rule_of(*kind)),
        forall|b: int|
            #[trigger] old(bodies).forces_bounded(b) && b >= 0 ==> final(bodies).forces_bounded(
                b + STEP_FORCE_BUDGET as int,
            ),
{
    let ghost pre = bodies@;
    let nb = bodies.len();
    let n = parts.len();
    let mut j: usize = 0;
    proof {
        assert forall|u: usize| #[trigger] count_occ(parts@.subrange(0, 0), BodyHandle(u))
            == 0 by {
            assert(parts@.subrange(0, 0).len() == 0);
        }
    }
    while j < n
        invariant
            n == parts@.len(),
            n <= GROUP_LIMIT,
            j <= n,
            pre.len() == nb,
            rule_wf(*kind),
            bodies.wf(),
            bodies@.len() == pre.len(),
            forall|i: int| 0 <= i < pre.len() ==> ((#[trigger] bodies@[i]) is Some <==> pre[i]
                is Some),
            forall|i: int|
                0 <= i < pre.len() && pre[i] is Some ==> (#[trigger] bodies@[i]).unwrap().position
                    == pre[i].unwrap().position,
            forall|i: int|
                0 <= i < pre.len() && pre[i] is Some ==> force_val(
                    (#[trigger] bodies@[i]).unwrap().force,
                ) == triple_add(
                    force_val(pre[i].unwrap().force),
                    triple_scale(
                        count_occ(parts@.subrange(0, j as int), BodyHandle(i as usize)) as int,
                        rule_of(*kind)(pre[i].unwrap().position),
                    ),
                ),
            forall|i: int|
                0 <= i < pre.len() && pre[i] is Some ==> triple_bounded(
                    force_val(pre[i].unwrap().force),
                    ACC_LIMIT as int,
                ),
        decreases n - j,
    {
        let h = parts[j];
        if bodies.valid(h) {
            let p = bodies.position(h);
            let f = rule_force(kind, &p);
            proof {
                let hi = h.0 as int;
                lemma_count_occ_bound(parts@.subrange(0, j as int), h);
                lemma_rule_in_limit(*kind, pre[hi].unwrap().position);
                let c = count_occ(parts@.subrange(0, j as int), BodyHandle(h.0)) as int;
                let r = rule_of(*kind)(pre[hi].unwrap().position);
                lemma_mul_abs_bound(c, GROUP_LIMIT as int, r.0, FORCE_LIMIT as int);
                lemma_mul_abs_bound(c, GROUP_LIMIT as int, r.1, FORCE_LIMIT as int);
                lemma_mul_abs_bound(c, GROUP_LIMIT as int, r.2, FORCE_LIMIT as int);
            }
            bodies.apply_force(h, &f);
            proof {
                let hi = h.0 as int;
                let c = count_occ(parts@.subrange(0, j as int), BodyHandle(h.0)) as int;
                let r = rule_of(*kind)(pre[hi].unwrap().position);
                lemma_mul_is_distributive_add_other_way(r.0, c, 1);
                lemma_mul_is_distributive_add_other_way(r.1, c, 1);
                lemma_mul_is_distributive_add_other_way(r.2, c, 1);
            }
        }
        proof {
            assert forall|u: usize|
                #[trigger] count_occ(parts@.subrange(0, j + 1), BodyHandle(u)) == count_occ(
                    parts@.subrange(0, j as int),
                    BodyHandle(u),
                ) + (if parts@[j as int] == BodyHandle(u) {
                    1int
                } else {
                    0int
                }) by {
                lemma_count_occ_step(parts@, j as int, BodyHandle(u));
            }
        }
        j = j + 1;
    }
    proof {
        assert(parts@.subrange(0, n as int) =~= parts@);
        assert forall|b: int|
            #[trigger] old(bodies).forces_bounded(b) && b >= 0 implies final(bodies).forces_bounded(b + STEP_FORCE_BUDGET as int) by {
            assert forall|i: int|
                0 <= i < bodies@.len() && bodies@[i] is Some implies triple_bounded(
                force_val((#[trigger] bodies@[i]).unwrap().force),
                b + STEP_FORCE_BUDGET as int,
            ) by {
                lemma_count_occ_bound(parts@, BodyHandle(i as usize));
                lemma_rule_in_limit(*kind, pre[i].unwrap().position);
                let c = count_occ(parts@, BodyHandle(i as usize)) as int;
                let r = rule_of(*kind)(pre[i].unwrap().position);
                lemma_mul_abs_bound(c, GROUP_LIMIT as int, r.0, FORCE_LIMIT as int);
                lemma_mul_abs_bound(c, GROUP_LIMIT as int, r.1, FORCE_LIMIT as int);
                lemma_mul_abs_bound(c, GROUP_LIMIT as int, r.2, FORCE_LIMIT as int);
            }
        }
    }
}

/// The oscillating-field generator: a spatially varying sine field
/// driven by a per-instance phase timer, over a group of body
/// references. An amplitude of zero keeps the generator registered and
/// its timer running while it pushes no force.
pub struct WorldForce {
    parts: Vec<BodyHandle>,
    timer: u64,
    amplitude: u64,
    increment: u64,
}

impl WorldForce {
    /// The group of body references this generator affects.
    pub closed spec fn group(&self) -> Seq<BodyHandle> {
        self.parts@
    }

    /// The phase timer, in sub-units of a turn, always under one turn.
    pub closed spec fn phase(&self) -> u64 {
        self.timer
    }

    /// The field's amplitude, in sub-units; zero disables the field.
    pub closed spec fn amplitude_spec(&self) -> u64 {
        self.amplitude
    }

    /// What the timer gains each step, in sub-units of a turn.
    pub closed spec fn increment_spec(&self) -> u64 {
        self.increment
    }

    /// The phase stays under a turn and the amplitude in range.
    pub closed spec fn wf(&self) -> bool {
        self.timer < SCALE && self.amplitude <= GAIN_LIMIT && self.increment < SCALE
    }

    /// A disabled field over `parts`: amplitude zero, so each step
    /// advances the timer by one hundredth of a turn and pushes no
    /// force.
    pub fn new(parts: Vec<BodyHandle>) -> (g: WorldForce)
        ensures
            g.group() == parts@,
            g.phase() == 0,
            g.amplitude_spec() == 0,
            g.increment_spec() == 10_000,
            g.wf(),
    {
        WorldForce { parts, timer: 0, amplitude: 0, increment: 10_000 }
    }

    /// An active field over `parts` with the given amplitude and
    /// per-step phase increment.
    pub fn with_field(parts: Vec<BodyHandle>, amplitude: u64, increment: u64) -> (g: WorldForce)
        requires
            amplitude <= GAIN_LIMIT,
            increment < SCALE,
        ensures
            g.group() == parts@,
            g.phase() == 0,
            g.amplitude_spec() == amplitude,
            g.increment_spec() == increment,
            g.wf(),
    {
        WorldForce { parts, timer: 0, amplitude, increment }
    }

    /// Appends a body reference to the group; duplicates are kept, so a
    /// reference added twice receives the force twice per step.
    pub fn add_body_part(&mut self, body: BodyHandle)
        ensures
            final(self).group() == old(self).group().push(body),
            final(self).phase() == old(self).phase(),
            final(self).amplitude_spec() == old(self).amplitude_spec(),
            final(self).increment_spec() == old(self).increment_spec(),
            old(self).wf() ==> final(self).wf(),
    {
        self.parts.push(body);
    }

    /// One simulation step: pushes the field's force, at the phase the
    /// step starts with, into every body reference that still resolves;
    /// skips the rest; then advances the timer by the increment, modulo
    /// one turn. Returns true: the generator stays registered.
    pub fn apply(&mut self, bodies: &mut BodySet) -> (keep: bool)
        requires
            old(self).wf(),
            old(self).group().len() <= GROUP_LIMIT,
            old(bodies).wf(),
            old(bodies).forces_bounded(ACC_LIMIT as int),
        ensures
            keep,
            final(self).wf(),
            final(self).group() == old(self).group(),
            final(self).amplitude_spec() == old(self).amplitude_spec(),
            final(self).increment_spec() == old(self).increment_spec(),
            final(self).phase() == (old(self).phase() + old(self).increment_spec()) as u64 % SCALE,
            final(bodies).wf(),
            forces_accumulated(
                old(bodies)@,
                final(bodies)@,
                old(self).group(),
                |p: Vec3|
                    oscillation_rule(p, old(self).phase() as int, old(self).amplitude_spec()),
            ),
            forall|b: int|
                #[trigger] old(bodies).forces_bounded(b) && b >= 0 ==> final(bodies).forces_bounded(b + STEP_FORCE_BUDGET as int),
    {
        let kind = RuleKind::Oscillation { phase: self.timer, amplitude: self.amplitude };
        apply_rule(bodies, &self.parts, &kind);
        self.timer = (self.timer + self.increment) % SCALE;
        true
    }
}

/// The implosion generator: a linear (Hookean) spring pulling every
/// body in its group toward a fixed center with gain `k`.
pub struct Implosion {
    parts: Vec<BodyHandle>,
    center: Vec3,
    strength: u64,
}

impl Implosion {
    /// The group of body references this generator affects.
    pub closed spec fn group(&self) -> Seq<BodyHandle> {
        self.parts@
    }

    /// The fixed center the spring pulls toward.
    pub closed spec fn center_spec(&self) -> Vec3 {
        self.center
    }

    /// The spring gain `k`, in sub-units.
    pub closed spec fn strength_spec(&self) -> u64 {
        self.strength
    }

    /// The center lies in the world volume and the gain in range.
    pub closed spec fn wf(&self) -> bool {
        vec3_in_bounds(self.center) && self.strength <= GAIN_LIMIT
    }

    pub fn new(parts: Vec<BodyHandle>, center: Vec3, strength: u64) -> (g: Implosion)
        requires
            vec3_in_bounds(center),
            strength <= GAIN_LIMIT,
        ensures
            g.group() == parts@,
            g.center_spec() == center,
            g.strength_spec() == strength,
            g.wf(),
    {
        Implosion { parts, center, strength }
    }

    /// Appends a body reference to the group; duplicates are kept.
    pub fn add_body_part(&mut self, body: BodyHandle)
        ensures
            final(self).group() == old(self).group().push(body),
            final(self).center_spec() == old(self).center_spec(),
            final(self).strength_spec() == old(self).strength_spec(),
            old(self).wf() ==> final(self).wf(),
    {
        self.parts.push(body);
    }

    /// One simulation step: pushes the spring force into every body
    /// reference that still resolves and skips the rest. Returns true:
    /// the generator stays registered.
    pub fn apply(&mut self, bodies: &mut BodySet) -> (keep: bool)
        requires
            old(self).wf(),
            old(self).group().len() <= GROUP_LIMIT,
            old(bodies).wf(),
            old(bodies).forces_bounded(ACC_LIMIT as int),
        ensures
            keep,
            *final(self) == *old(self),
            final(bodies).wf(),
            forces_accumulated(
                old(bodies)@,
                final(bodies)@,
                old(self).group(),
                |p: Vec3| implosion_rule(p, old(self).center_spec(), old(self).strength_spec()),
            ),
            forall|b: int|
                #[trigger] old(bodies).forces_bounded(b) && b >= 0 ==> final(bodies).forces_bounded(b + STEP_FORCE_BUDGET as int),
    {
        let kind = RuleKind::Implosion { center: self.center, k: self.strength };
        apply_rule(bodies, &self.parts, &kind);
        true
    }
}

/// The orbiting inverse-square attractor: each step first rotates its
/// center by a fixed per-step rotation, then pulls every body in its
/// group toward the new center with an inverse-square law.
pub struct Attractor {
    parts: Vec<BodyHandle>,
    center: Vec3,
    strength: u64,
    rotation: Mat3,
}

impl Attractor {
    /// The group of body references this generator affects.
    pub closed spec fn group(&self) -> Seq<BodyHandle> {
        self.parts@
    }

    /// The attractor's current center.
    pub closed spec fn center_spec(&self) -> Vec3 {
        self.center
    }

    /// The attraction strength, in sub-units.
    pub closed spec fn strength_spec(&self) -> u64 {
        self.strength
    }

    /// The fixed per-step rotation applied to the center.
    pub closed spec fn rotation_spec(&self) -> Mat3 {
        self.rotation
    }

    /// The center lies in the world volume, the strength in range, and
    /// the rotation's entries within one scaled unit.
    pub closed spec fn wf(&self) -> bool {
        vec3_in_bounds(self.center) && self.strength <= GAIN_LIMIT && mat3_in_bounds(self.rotation)
    }

    /// An attractor over `parts` whose center starts at `center` and is
    /// advanced each step by the rotation that `angles` encodes:
    /// axis-times-angle, the angle being the vector's length in
    /// sub-units of a turn.
    pub fn new(parts: Vec<BodyHandle>, center: Vec3, strength: u64, angles: Vec3) -> (g: Attractor)
        requires
            vec3_in_bounds(center),
            strength <= GAIN_LIMIT,
            vec3_in_bounds(angles),
        ensures
            g.group() == parts@,
            g.center_spec() == center,
            g.strength_spec() == strength,
            mat_val(g.rotation_spec()) == rodrigues(angles),
            g.wf(),
    {
        let rotation = rotation_from_angles(&angles);
        Attractor { parts, center, strength, rotation }
    }

    /// An attractor over `parts` whose center starts at `center` and is
    /// advanced each step by the fixed transform `rotation`.
    pub fn with_rotation(parts: Vec<BodyHandle>, center: Vec3, strength: u64, rotation: Mat3) -> (g:
        Attractor)
        requires
            vec3_in_bounds(center),
            strength <= GAIN_LIMIT,
            mat3_in_bounds(rotation),
        ensures
            g.group() == parts@,
            g.center_spec() == center,
            g.strength_spec() == strength,
            g.rotation_spec() == rotation,
            g.wf(),
    {
        Attractor { parts, center, strength, rotation }
    }

    /// Appends a body reference to the group; duplicates are kept.
    pub fn add_body_part(&mut self, body: BodyHandle)
        ensures
            final(self).group() == old(self).group().push(body),
            final(self).center_spec() == old(self).center_spec(),
            final(self).strength_spec() == old(self).strength_spec(),
            final(self).rotation_spec() == old(self).rotation_spec(),
            old(self).wf() ==> final(self).wf(),
    {
        self.parts.push(body);
    }

    /// One simulation step: first advances the center by the fixed
    /// rotation, then pushes the inverse-square force toward the new
    /// center into every body reference that still resolves, skipping
    /// the rest. Returns true: the generator stays registered.
    pub fn apply(&mut self, bodies: &mut BodySet) -> (keep: bool)
        requires
            old(self).wf(),
            old(self).group().len() <= GROUP_LIMIT,
            old(bodies).wf(),
            old(bodies).forces_bounded(ACC_LIMIT as int),
        ensures
            keep,
            final(self).wf(),
            final(self).group() == old(self).group(),
            final(self).strength_spec() == old(self).strength_spec(),
            final(self).rotation_spec() == old(self).rotation_spec(),
            vec_val(final(self).center_spec()) == rotate_step(
                old(self).rotation_spec(),
                old(self).center_spec(),
            ),
            final(bodies).wf(),
            forces_accumulated(
                old(bodies)@,
                final(bodies)@,
                old(self).group(),
                |p: Vec3|
                    attractor_rule(p, final(self).center_spec(), old(self).strength_spec()),
            ),
            forall|b: int|
                #[trigger] old(bodies).forces_bounded(b) && b >= 0 ==> final(bodies).forces_bounded(b + STEP_FORCE_BUDGET as int),
    {
        self.center = rotate_vec(&self.rotation, &self.center);
        let kind = RuleKind::Attraction { center: self.center, strength: self.strength };
        apply_rule(bodies, &self.parts, &kind);
        true
    }
}

} // verus!
