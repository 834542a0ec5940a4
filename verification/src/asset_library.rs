//! Named textures, in two tables (2D textures and cube maps), with the kind
//! of each name.

use vstd::prelude::*;
use vstd::string::*;
use crate::texture::TextureType;

verus! {

/// The map that a list of (name, value) entries stands for: a later entry
/// for a name replaces an earlier one.
pub open spec fn entries_map<T>(entries: Seq<(String, T)>) -> Map<Seq<char>, T>
    decreases entries.len(),
{
    if entries.len() == 0 {
        Map::empty()
    } else {
        let (name, value) = entries.last();
        entries_map(entries.drop_last()).insert(name@, value)
    }
}

/// The value of the last entry named `name`.
fn find_last<'a, T>(entries: &'a Vec<(String, T)>, name: &String) -> (found: Option<&'a T>)
    ensures
        found == if entries_map(entries@).contains_key(name@) {
            Some(&entries_map(entries@)[name@])
        } else {
            None::<&T>
        },
{
    let mut i: usize = entries.len();
    assert(entries@.subrange(0, i as int) =~= entries@);
    while i > 0
        invariant
            i <= entries.len(),
            forall|j: int| i <= j < entries.len() ==> (#[trigger] entries@[j]).0@ != name@,
            entries_map(entries@).contains_key(name@) == entries_map(
                entries@.subrange(0, i as int),
            ).contains_key(name@),
            entries_map(entries@).contains_key(name@) ==> entries_map(entries@)[name@]
                == entries_map(entries@.subrange(0, i as int))[name@],
        decreases i,
    {
        let entry = &entries[i - 1];
        proof {
            let prefix = entries@.subrange(0, i as int);
            assert(prefix.drop_last() =~= entries@.subrange(0, i - 1));
            assert(prefix.last() == entries@[i - 1]);
        }
        if entry.0 == *name {
            return Some(&entry.1);
        }
        i = i - 1;
    }
    proof {
        assert(entries@.subrange(0, 0) =~= Seq::<(String, T)>::empty());
    }
    None
}

/// Textures by name: 2D textures, cube maps, and the kind of each name.
pub struct AssetLibrary<T> {
    textures_2d: Vec<(String, T)>,
    textures_cubemap: Vec<(String, T)>,
    texture_types: Vec<(String, TextureType)>,
}

/// The texture named `name`: the 2D texture of that name if there is one,
/// else the cube map of that name, if there is one.
pub open spec fn texture_lookup<T>(
    textures_2d: Map<Seq<char>, T>,
    textures_cubemap: Map<Seq<char>, T>,
    name: Seq<char>,
) -> Option<T> {
    if textures_2d.contains_key(name) {
        Some(textures_2d[name])
    } else if textures_cubemap.contains_key(name) {
        Some(textures_cubemap[name])
    } else {
        None
    }
}

impl<T> AssetLibrary<T> {
    /// The 2D textures by name.
    pub closed spec fn textures_2d(self) -> Map<Seq<char>, T> {
        entries_map(self.textures_2d@)
    }

    /// The cube maps by name.
    pub closed spec fn textures_cubemap(self) -> Map<Seq<char>, T> {
        entries_map(self.textures_cubemap@)
    }

    /// The kind of each named texture.
    pub closed spec fn texture_types(self) -> Map<Seq<char>, TextureType> {
        entries_map(self.texture_types@)
    }

    /// A library without textures.
    pub fn new() -> (library: AssetLibrary<T>)
        ensures
            library.textures_2d() == Map::<Seq<char>, T>::empty(),
            library.textures_cubemap() == Map::<Seq<char>, T>::empty(),
            library.texture_types() == Map::<Seq<char>, TextureType>::empty(),
    {
        AssetLibrary { textures_2d: Vec::new(), textures_cubemap: Vec::new(), texture_types: Vec::new() }
    }

    /// Adds (or replaces) the 2D texture `name`, and records its kind.
    pub fn insert_texture_2d(&mut self, name: String, texture: T)
        ensures
            final(self).textures_2d() == old(self).textures_2d().insert(name@, texture),
            final(self).textures_cubemap() == old(self).textures_cubemap(),
            final(self).texture_types() == old(self).texture_types().insert(
                name@,
                TextureType::Texture2D,
            ),
    {
        let kind_name = name.clone();
        self.textures_2d.push((name, texture));
        self.texture_types.push((kind_name, TextureType::Texture2D));
        proof {
            assert(self.textures_2d@.drop_last() =~= old(self).textures_2d@);
            assert(self.texture_types@.drop_last() =~= old(self).texture_types@);
        }
    }

    /// Adds (or replaces) the cube map `name`, and records its kind.
    pub fn insert_texture_cubemap(&mut self, name: String, texture: T)
        ensures
            final(self).textures_2d() == old(self).textures_2d(),
            final(self).textures_cubemap() == old(self).textures_cubemap().insert(name@, texture),
            final(self).texture_types() == old(self).texture_types().insert(
                name@,
                TextureType::TextureCube,
            ),
    {
        let kind_name = name.clone();
        self.textures_cubemap.push((name, texture));
        self.texture_types.push((kind_name, TextureType::TextureCube));
        proof {
            assert(self.textures_cubemap@.drop_last() =~= old(self).textures_cubemap@);
            assert(self.texture_types@.drop_last() =~= old(self).texture_types@);
        }
    }

    /// The texture named `key`: a 2D texture before a cube map.
    pub fn get_texture(&self, key: &str) -> (texture: Option<&T>)
        ensures
            texture == match texture_lookup(self.textures_2d(), self.textures_cubemap(), key@) {
                Some(t) => Some(&t),
                None => None::<&T>,
            },
    {
        let name = String::from_str(key);
        match find_last(&self.textures_2d, &name) {
            Some(texture) => Some(texture),
            None => find_last(&self.textures_cubemap, &name),
        }
    }

    /// The kind of the texture named `key`.
    pub fn get_texture_type(&self, key: &str) -> (texture_type: Option<TextureType>)
        ensures
            texture_type == if self.texture_types().contains_key(key@) {
                Some(self.texture_types()[key@])
            } else {
                None::<TextureType>
            },
    {
        let name = String::from_str(key);
        match find_last(&self.texture_types, &name) {
            Some(texture_type) => Some(*texture_type),
            None => None,
        }
    }
}

/// A texture added under a name is what the name then finds, whatever else
/// the library holds; a 2D texture hides a cube map of the same name.
pub proof fn lemma_lookup_after_insert<T>(
    textures_2d: Map<Seq<char>, T>,
    textures_cubemap: Map<Seq<char>, T>,
    name: Seq<char>,
    texture: T,
)
    ensures
        texture_lookup(textures_2d.insert(name, texture), textures_cubemap, name) == Some(texture),
        !textures_2d.contains_key(name) ==> texture_lookup(
            textures_2d,
            textures_cubemap.insert(name, texture),
            name,
        ) == Some(texture),
        forall|other: Seq<char>|
            other != name ==> texture_lookup(textures_2d.insert(name, texture), textures_cubemap, other)
                == #[trigger] texture_lookup(textures_2d, textures_cubemap, other),
{
}

} // verus!
