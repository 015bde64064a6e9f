//! The registry of asset classes: numeric class ids and the tags they stand for.
use vstd::prelude::*;

verus! {

/// The class id whose rows carry a sixteen-byte script identifier.
pub const MONO_BEHAVIOR_CLASS_ID: u32 = 114;

/// The class of an asset as identified by its numeric id, without any payload.
#[derive(Clone, Copy, Debug, PartialEq, Eq, Structural)]
pub enum AssetClassVariant {
    /// An id outside the known set, kept as it was read.
    Unknown(u32),
    GameObject,
    Transform,
    Camera,
    Material,
    MeshRenderer,
    Texture2D,
    MeshFilter,
    Mesh,
    Shader,
    TextAsset,
    RigidBody2D,
    CircleCollider2D,
    PolygonCollider2D,
    BoxCollider2D,
    PhysicsMaterial2D,
    BoxCollider,
    CompositeCollider2D,
    EdgeCollider2D,
    CapsuleCollider2D,
    ComputeShader,
    AnimationClip,
    AudioListener,
    AudioSource,
    AnimatorController,
    Animator,
    MonoBehavior,
    LineRenderer,
    Font,
    ParticleSystem,
    ParticleSystemRenderer,
    SortingGroup,
    SpriteRenderer,
    Sprite,
    AnimatorOverrideController,
    CanvasRenderer,
    Canvas,
    RectTransform,
    CanvasGroup,
    PlayableDirector,
    VideoPlayer,
    SpriteMask,
    TilemapCollider2D,
    Grid,
    TilemapRenderer,
    SpriteAtlas,
    Tilemap,
}

impl AssetClassVariant {
    /// The id under which the class is stored on disk.
    pub open spec fn id(self) -> u32 {
        match self {
            AssetClassVariant::Unknown(id) => id,
            AssetClassVariant::GameObject => 1,
            AssetClassVariant::Transform => 4,
            AssetClassVariant::Camera => 20,
            AssetClassVariant::Material => 21,
            AssetClassVariant::MeshRenderer => 23,
            AssetClassVariant::Texture2D => 28,
            AssetClassVariant::MeshFilter => 33,
            AssetClassVariant::Mesh => 43,
            AssetClassVariant::Shader => 48,
            AssetClassVariant::TextAsset => 49,
            AssetClassVariant::RigidBody2D => 50,
            AssetClassVariant::CircleCollider2D => 58,
            AssetClassVariant::PolygonCollider2D => 60,
            AssetClassVariant::BoxCollider2D => 61,
            AssetClassVariant::PhysicsMaterial2D => 62,
            AssetClassVariant::BoxCollider => 65,
            AssetClassVariant::CompositeCollider2D => 66,
            AssetClassVariant::EdgeCollider2D => 68,
            AssetClassVariant::CapsuleCollider2D => 70,
            AssetClassVariant::ComputeShader => 72,
            AssetClassVariant::AnimationClip => 74,
            AssetClassVariant::AudioListener => 81,
            AssetClassVariant::AudioSource => 82,
            AssetClassVariant::AnimatorController => 91,
            AssetClassVariant::Animator => 95,
            AssetClassVariant::MonoBehavior => 114,
            AssetClassVariant::LineRenderer => 120,
            AssetClassVariant::Font => 128,
            AssetClassVariant::ParticleSystem => 198,
            AssetClassVariant::ParticleSystemRenderer => 199,
            AssetClassVariant::SortingGroup => 210,
            AssetClassVariant::SpriteRenderer => 212,
            AssetClassVariant::Sprite => 213,
            AssetClassVariant::AnimatorOverrideController => 221,
            AssetClassVariant::CanvasRenderer => 222,
            AssetClassVariant::Canvas => 223,
            AssetClassVariant::RectTransform => 224,
            AssetClassVariant::CanvasGroup => 225,
            AssetClassVariant::PlayableDirector => 320,
            AssetClassVariant::VideoPlayer => 328,
            AssetClassVariant::SpriteMask => 331,
            AssetClassVariant::TilemapCollider2D => 19719996,
            AssetClassVariant::Grid => 156049354,
            AssetClassVariant::TilemapRenderer => 483693784,
            AssetClassVariant::SpriteAtlas => 687078895,
            AssetClassVariant::Tilemap => 1839735485,
        }
    }

    pub open spec fn is_known(self) -> bool {
        !(self is Unknown)
    }
}

/// Whether some known class is stored under `id`.
pub open spec fn is_known_class_id(id: u32) -> bool {
    exists|v: AssetClassVariant| v.is_known() && #[trigger] v.id() == id
}

/// No two known classes share an id, so the class that `resolve` returns is
/// the only one stored under its id.
pub proof fn lemma_known_ids_distinct(a: AssetClassVariant, b: AssetClassVariant)
    requires
        a.is_known(),
        b.is_known(),
        a.id() == b.id(),
    ensures
        a == b,
{
}

/// The class stored under `id`: the known class with that id, and
/// `Unknown(id)` for every id outside the known set.
pub fn resolve(id: u32) -> (r: AssetClassVariant)
    ensures
        r.id() == id,
        r.is_known() <==> is_known_class_id(id),
        !is_known_class_id(id) ==> r == AssetClassVariant::Unknown(id),
        forall|v: AssetClassVariant| v.is_known() && #[trigger] v.id() == id ==> r == v,
{
    let r = match id {
        1 => AssetClassVariant::GameObject,
        4 => AssetClassVariant::Transform,
        20 => AssetClassVariant::Camera,
        21 => AssetClassVariant::Material,
        23 => AssetClassVariant::MeshRenderer,
        28 => AssetClassVariant::Texture2D,
        33 => AssetClassVariant::MeshFilter,
        43 => AssetClassVariant::Mesh,
        48 => AssetClassVariant::Shader,
        49 => AssetClassVariant::TextAsset,
        50 => AssetClassVariant::RigidBody2D,
        58 => AssetClassVariant::CircleCollider2D,
        60 => AssetClassVariant::PolygonCollider2D,
        61 => AssetClassVariant::BoxCollider2D,
        62 => AssetClassVariant::PhysicsMaterial2D,
        65 => AssetClassVariant::BoxCollider,
        66 => AssetClassVariant::CompositeCollider2D,
        68 => AssetClassVariant::EdgeCollider2D,
        70 => AssetClassVariant::CapsuleCollider2D,
        72 => AssetClassVariant::ComputeShader,
        74 => AssetClassVariant::AnimationClip,
        81 => AssetClassVariant::AudioListener,
        82 => AssetClassVariant::AudioSource,
        91 => AssetClassVariant::AnimatorController,
        95 => AssetClassVariant::Animator,
        114 => AssetClassVariant::MonoBehavior,
        120 => AssetClassVariant::LineRenderer,
        128 => AssetClassVariant::Font,
        198 => AssetClassVariant::ParticleSystem,
        199 => AssetClassVariant::ParticleSystemRenderer,
        210 => AssetClassVariant::SortingGroup,
        212 => AssetClassVariant::SpriteRenderer,
        213 => AssetClassVariant::Sprite,
        221 => AssetClassVariant::AnimatorOverrideController,
        222 => AssetClassVariant::CanvasRenderer,
        223 => AssetClassVariant::Canvas,
        224 => AssetClassVariant::RectTransform,
        225 => AssetClassVariant::CanvasGroup,
        320 => AssetClassVariant::PlayableDirector,
        328 => AssetClassVariant::VideoPlayer,
        331 => AssetClassVariant::SpriteMask,
        19719996 => AssetClassVariant::TilemapCollider2D,
        156049354 => AssetClassVariant::Grid,
        483693784 => AssetClassVariant::TilemapRenderer,
        687078895 => AssetClassVariant::SpriteAtlas,
        1839735485 => AssetClassVariant::Tilemap,
        _ => AssetClassVariant::Unknown(id),
    };
    proof {
        if r.is_known() {
            assert(r.is_known() && r.id() == id);
            assert forall|v: AssetClassVariant| v.is_known() && #[trigger] v.id() == id implies r
                == v by {
                lemma_known_ids_distinct(r, v);
            }
        } else {
            assert forall|v: AssetClassVariant| v.is_known() implies #[trigger] v.id() != id by {
                assert(v.id() != id);
            }
        }
    }
    r
}

/// The class of an asset, with the payload that its class carries.
#[derive(Clone, Copy, Debug, PartialEq, Eq)]
pub enum AssetClass {
    /// An id outside the known set, kept as it was read.
    Unknown(u32),
    GameObject,
    Transform,
    Camera,
    Material,
    MeshRenderer,
    Texture2D,
    MeshFilter,
    Mesh,
    Shader,
    TextAsset,
    RigidBody2D,
    CircleCollider2D,
    PolygonCollider2D,
    BoxCollider2D,
    PhysicsMaterial2D,
    BoxCollider,
    CompositeCollider2D,
    EdgeCollider2D,
    CapsuleCollider2D,
    ComputeShader,
    AnimationClip,
    AudioListener,
    AudioSource,
    AnimatorController,
    Animator,
    /// A scripted behaviour, with the identifier of its script.
    MonoBehavior { script_id: [u8; 16] },
    LineRenderer,
    Font,
    ParticleSystem,
    ParticleSystemRenderer,
    SortingGroup,
    SpriteRenderer,
    Sprite,
    AnimatorOverrideController,
    CanvasRenderer,
    Canvas,
    RectTransform,
    CanvasGroup,
    PlayableDirector,
    VideoPlayer,
    SpriteMask,
    TilemapCollider2D,
    Grid,
    TilemapRenderer,
    SpriteAtlas,
    Tilemap,
}

impl AssetClass {
    /// The class without its payload.
    pub open spec fn variant(self) -> AssetClassVariant {
        match self {
            AssetClass::Unknown(id) => AssetClassVariant::Unknown(id),
            AssetClass::MonoBehavior { .. } => AssetClassVariant::MonoBehavior,
            AssetClass::GameObject => AssetClassVariant::GameObject,
            AssetClass::Transform => AssetClassVariant::Transform,
            AssetClass::Camera => AssetClassVariant::Camera,
            AssetClass::Material => AssetClassVariant::Material,
            AssetClass::MeshRenderer => AssetClassVariant::MeshRenderer,
            AssetClass::Texture2D => AssetClassVariant::Texture2D,
            AssetClass::MeshFilter => AssetClassVariant::MeshFilter,
            AssetClass::Mesh => AssetClassVariant::Mesh,
            AssetClass::Shader => AssetClassVariant::Shader,
            AssetClass::TextAsset => AssetClassVariant::TextAsset,
            AssetClass::RigidBody2D => AssetClassVariant::RigidBody2D,
            AssetClass::CircleCollider2D => AssetClassVariant::CircleCollider2D,
            AssetClass::PolygonCollider2D => AssetClassVariant::PolygonCollider2D,
            AssetClass::BoxCollider2D => AssetClassVariant::BoxCollider2D,
            AssetClass::PhysicsMaterial2D => AssetClassVariant::PhysicsMaterial2D,
            AssetClass::BoxCollider => AssetClassVariant::BoxCollider,
            AssetClass::CompositeCollider2D => AssetClassVariant::CompositeCollider2D,
            AssetClass::EdgeCollider2D => AssetClassVariant::EdgeCollider2D,
            AssetClass::CapsuleCollider2D => AssetClassVariant::CapsuleCollider2D,
            AssetClass::ComputeShader => AssetClassVariant::ComputeShader,
            AssetClass::AnimationClip => AssetClassVariant::AnimationClip,
            AssetClass::AudioListener => AssetClassVariant::AudioListener,
            AssetClass::AudioSource => AssetClassVariant::AudioSource,
            AssetClass::AnimatorController => AssetClassVariant::AnimatorController,
            AssetClass::Animator => AssetClassVariant::Animator,
            AssetClass::LineRenderer => AssetClassVariant::LineRenderer,
            AssetClass::Font => AssetClassVariant::Font,
            AssetClass::ParticleSystem => AssetClassVariant::ParticleSystem,
            AssetClass::ParticleSystemRenderer => AssetClassVariant::ParticleSystemRenderer,
            AssetClass::SortingGroup => AssetClassVariant::SortingGroup,
            AssetClass::SpriteRenderer => AssetClassVariant::SpriteRenderer,
            AssetClass::Sprite => AssetClassVariant::Sprite,
            AssetClass::AnimatorOverrideController => AssetClassVariant::AnimatorOverrideController,
            AssetClass::CanvasRenderer => AssetClassVariant::CanvasRenderer,
            AssetClass::Canvas => AssetClassVariant::Canvas,
            AssetClass::RectTransform => AssetClassVariant::RectTransform,
            AssetClass::CanvasGroup => AssetClassVariant::CanvasGroup,
            AssetClass::PlayableDirector => AssetClassVariant::PlayableDirector,
            AssetClass::VideoPlayer => AssetClassVariant::VideoPlayer,
            AssetClass::SpriteMask => AssetClassVariant::SpriteMask,
            AssetClass::TilemapCollider2D => AssetClassVariant::TilemapCollider2D,
            AssetClass::Grid => AssetClassVariant::Grid,
            AssetClass::TilemapRenderer => AssetClassVariant::TilemapRenderer,
            AssetClass::SpriteAtlas => AssetClassVariant::SpriteAtlas,
            AssetClass::Tilemap => AssetClassVariant::Tilemap,
        }
    }

    /// The class that carries no payload, case for case; the scripted
    /// behaviour needs its script identifier and is built directly.
    pub fn from_variant(variant: AssetClassVariant) -> (r: AssetClass)
        requires
            !(variant is MonoBehavior),
        ensures
            r.variant() == variant,
    {
        match variant {
            AssetClassVariant::Unknown(id) => AssetClass::Unknown(id),
            AssetClassVariant::MonoBehavior => AssetClass::Unknown(MONO_BEHAVIOR_CLASS_ID),
            AssetClassVariant::GameObject => AssetClass::GameObject,
            AssetClassVariant::Transform => AssetClass::Transform,
            AssetClassVariant::Camera => AssetClass::Camera,
            AssetClassVariant::Material => AssetClass::Material,
            AssetClassVariant::MeshRenderer => AssetClass::MeshRenderer,
            AssetClassVariant::Texture2D => AssetClass::Texture2D,
            AssetClassVariant::MeshFilter => AssetClass::MeshFilter,
            AssetClassVariant::Mesh => AssetClass::Mesh,
            AssetClassVariant::Shader => AssetClass::Shader,
            AssetClassVariant::TextAsset => AssetClass::TextAsset,
            AssetClassVariant::RigidBody2D => AssetClass::RigidBody2D,
            AssetClassVariant::CircleCollider2D => AssetClass::CircleCollider2D,
            AssetClassVariant::PolygonCollider2D => AssetClass::PolygonCollider2D,
            AssetClassVariant::BoxCollider2D => AssetClass::BoxCollider2D,
            AssetClassVariant::PhysicsMaterial2D => AssetClass::PhysicsMaterial2D,
            AssetClassVariant::BoxCollider => AssetClass::BoxCollider,
            AssetClassVariant::CompositeCollider2D => AssetClass::CompositeCollider2D,
            AssetClassVariant::EdgeCollider2D => AssetClass::EdgeCollider2D,
            AssetClassVariant::CapsuleCollider2D => AssetClass::CapsuleCollider2D,
            AssetClassVariant::ComputeShader => AssetClass::ComputeShader,
            AssetClassVariant::AnimationClip => AssetClass::AnimationClip,
            AssetClassVariant::AudioListener => AssetClass::AudioListener,
            AssetClassVariant::AudioSource => AssetClass::AudioSource,
            AssetClassVariant::AnimatorController => AssetClass::AnimatorController,
            AssetClassVariant::Animator => AssetClass::Animator,
            AssetClassVariant::LineRenderer => AssetClass::LineRenderer,
            AssetClassVariant::Font => AssetClass::Font,
            AssetClassVariant::ParticleSystem => AssetClass::ParticleSystem,
            AssetClassVariant::ParticleSystemRenderer => AssetClass::ParticleSystemRenderer,
            AssetClassVariant::SortingGroup => AssetClass::SortingGroup,
            AssetClassVariant::SpriteRenderer => AssetClass::SpriteRenderer,
            AssetClassVariant::Sprite => AssetClass::Sprite,
            AssetClassVariant::AnimatorOverrideController => AssetClass::AnimatorOverrideController,
            AssetClassVariant::CanvasRenderer => AssetClass::CanvasRenderer,
            AssetClassVariant::Canvas => AssetClass::Canvas,
            AssetClassVariant::RectTransform => AssetClass::RectTransform,
            AssetClassVariant::CanvasGroup => AssetClass::CanvasGroup,
            AssetClassVariant::PlayableDirector => AssetClass::PlayableDirector,
            AssetClassVariant::VideoPlayer => AssetClass::VideoPlayer,
            AssetClassVariant::SpriteMask => AssetClass::SpriteMask,
            AssetClassVariant::TilemapCollider2D => AssetClass::TilemapCollider2D,
            AssetClassVariant::Grid => AssetClass::Grid,
            AssetClassVariant::TilemapRenderer => AssetClass::TilemapRenderer,
            AssetClassVariant::SpriteAtlas => AssetClass::SpriteAtlas,
            AssetClassVariant::Tilemap => AssetClass::Tilemap,
        }
    }
}

} // verus!
