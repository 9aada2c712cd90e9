//! Where the files of one character are found.

use vstd::prelude::*;
use vstd::string::StringExecFns;

verus! {

/// The paths of one character as they are entered: they may still be empty.
#[derive(Clone, Debug, PartialEq, Eq)]
pub struct AddModel {
    pub name: String,
    pub skin: String,
    pub skeleton: String,
    pub textures: String,
    pub animations: String,
}

/// The paths of one character as they are kept in a configuration.
#[derive(Clone, Debug, PartialEq, Eq)]
pub struct PathJson {
    pub name: String,
    pub skin: String,
    pub skeleton: String,
    pub textures: String,
    pub animations: String,
}

/// A path without which a character cannot be loaded.
#[derive(Clone, Copy, Debug, PartialEq, Eq, Structural)]
pub enum Missing {
    Skin,
    Skeleton,
}

/// The name given to a character that was entered without one: `model`.
pub open spec fn default_name() -> Seq<char> {
    "model"@
}

impl AddModel {
    /// An entry with every path empty.
    pub fn new() -> (entry: AddModel)
        ensures
            entry.name@.len() == 0,
            entry.skin@.len() == 0,
            entry.skeleton@.len() == 0,
            entry.textures@.len() == 0,
            entry.animations@.len() == 0,
    {
        AddModel {
            name: String::new(),
            skin: String::new(),
            skeleton: String::new(),
            textures: String::new(),
            animations: String::new(),
        }
    }

    /// The first path that is required and empty: the skin's, then the
    /// skeleton's. `None` when the character can be loaded.
    pub fn missing(&self) -> (r: Option<Missing>)
        ensures
            r == (if self.skin@.len() == 0 {
                Some(Missing::Skin)
            } else if self.skeleton@.len() == 0 {
                Some(Missing::Skeleton)
            } else {
                None
            }),
    {
        if self.skin.as_str().is_empty() {
            Some(Missing::Skin)
        } else if self.skeleton.as_str().is_empty() {
            Some(Missing::Skeleton)
        } else {
            None
        }
    }

    /// The entry that a configuration's paths stand for.
    pub fn from_paths(paths: &PathJson) -> (entry: AddModel)
        ensures
            entry.name@ == paths.name@,
            entry.skin@ == paths.skin@,
            entry.skeleton@ == paths.skeleton@,
            entry.textures@ == paths.textures@,
            entry.animations@ == paths.animations@,
    {
        AddModel {
            name: paths.name.clone(),
            skin: paths.skin.clone(),
            skeleton: paths.skeleton.clone(),
            textures: paths.textures.clone(),
            animations: paths.animations.clone(),
        }
    }

    /// The paths to keep for this entry. A character entered without a name
    /// is called `model`.
    pub fn to_paths(&self) -> (paths: PathJson)
        ensures
            paths.name@ == (if self.name@.len() == 0 {
                default_name()
            } else {
                self.name@
            }),
            paths.skin@ == self.skin@,
            paths.skeleton@ == self.skeleton@,
            paths.textures@ == self.textures@,
            paths.animations@ == self.animations@,
    {
        let name = if self.name.as_str().is_empty() {
            String::from_str("model")
        } else {
            self.name.clone()
        };
        PathJson {
            name,
            skin: self.skin.clone(),
            skeleton: self.skeleton.clone(),
            textures: self.textures.clone(),
            animations: self.animations.clone(),
        }
    }
}

} // verus!
