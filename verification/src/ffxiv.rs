//! The stock database layout of the game this archive format ships
//! with: its fixed category table, and the single `ffxiv` repository
//! under an install directory.

use vstd::prelude::*;
use vstd::string::StringExecFns;

use crate::sqpack::{Category, CategoryV, Repository, RepositoryV, SqPack};

verus! {

/// The fixed category table: name and archive-file ID of every category
/// the game ships.
pub open spec fn spec_ffxiv_categories() -> Seq<CategoryV> {
    seq![
        CategoryV { name: "common"@, id: 0x00 },
        CategoryV { name: "bgcommon"@, id: 0x01 },
        CategoryV { name: "bg"@, id: 0x02 },
        CategoryV { name: "cut"@, id: 0x03 },
        CategoryV { name: "chara"@, id: 0x04 },
        CategoryV { name: "shader"@, id: 0x05 },
        CategoryV { name: "ui"@, id: 0x06 },
        CategoryV { name: "sound"@, id: 0x07 },
        CategoryV { name: "vfx"@, id: 0x08 },
        CategoryV { name: "ui_script"@, id: 0x09 },
        CategoryV { name: "exd"@, id: 0x0a },
        CategoryV { name: "game_script"@, id: 0x0b },
        CategoryV { name: "music"@, id: 0x0c },
        CategoryV { name: "sqpack_test"@, id: 0x12 },
        CategoryV { name: "debug"@, id: 0x13 },
    ]
}

/// The one repository of a stock install, rooted under
/// `<install>/game/sqpack/ffxiv`.
pub open spec fn spec_ffxiv_repository(install: Seq<char>) -> RepositoryV {
    RepositoryV { name: "ffxiv"@, id: 0, path: install + "/game/sqpack/ffxiv"@ }
}

/// A database with the game's stock layout.
pub trait SqPackFfxiv {
    /// Build a database rooted at the given install directory, with the
    /// stock category table and the `ffxiv` repository as default.
    fn ffxiv_at(path: &str) -> (r: Self) where Self: Sized;
}

impl SqPackFfxiv for SqPack {
    fn ffxiv_at(path: &str) -> (r: SqPack) {
        ffxiv_at(path)
    }
}

/// Build a database rooted at the given install directory: the stock
/// category table, the `ffxiv` repository, and that repository as the
/// default for paths whose second segment names no repository.
pub fn ffxiv_at(path: &str) -> (r: SqPack)
    ensures
        r@.default_repository == "ffxiv"@,
        r@.repositories == seq![spec_ffxiv_repository(path@)],
        r@.categories == spec_ffxiv_categories(),
        r@.chunks == Seq::<crate::sqpack::ChunkV>::empty(),
{
    let mut install = String::from_str(path);
    install.append("/game/sqpack/ffxiv");
    let repository = Repository { name: String::from_str("ffxiv"), id: 0, path: install };
    let mut repositories: Vec<Repository> = Vec::new();
    repositories.push(repository);
    let mut categories: Vec<Category> = Vec::new();
    categories.push(Category { name: String::from_str("common"), id: 0x00 });
    categories.push(Category { name: String::from_str("bgcommon"), id: 0x01 });
    categories.push(Category { name: String::from_str("bg"), id: 0x02 });
    categories.push(Category { name: String::from_str("cut"), id: 0x03 });
    categories.push(Category { name: String::from_str("chara"), id: 0x04 });
    categories.push(Category { name: String::from_str("shader"), id: 0x05 });
    categories.push(Category { name: String::from_str("ui"), id: 0x06 });
    categories.push(Category { name: String::from_str("sound"), id: 0x07 });
    categories.push(Category { name: String::from_str("vfx"), id: 0x08 });
    categories.push(Category { name: String::from_str("ui_script"), id: 0x09 });
    categories.push(Category { name: String::from_str("exd"), id: 0x0a });
    categories.push(Category { name: String::from_str("game_script"), id: 0x0b });
    categories.push(Category { name: String::from_str("music"), id: 0x0c });
    categories.push(Category { name: String::from_str("sqpack_test"), id: 0x12 });
    categories.push(Category { name: String::from_str("debug"), id: 0x13 });
    let r = SqPack::new(String::from_str("ffxiv"), repositories, categories);
    proof {
        assert(r@.repositories =~= seq![spec_ffxiv_repository(path@)]);
        assert(r@.categories =~= spec_ffxiv_categories());
    }
    r
}

} // verus!
