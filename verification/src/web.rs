//! Shapes of the remote documents and the addresses they are fetched from.

use vstd::prelude::*;
use vstd::string::*;

verus! {

pub const CDN_JSDELIVR: &'static str = "https://cdn.jsdelivr.net";

pub const NPM_MIRROR: &'static str = "https://registry.npmmirror.com";

pub const CDN_DDRAGON: &'static str = "https://ddragon.leagueoflegends.com";

/// A remote provider of builds, as listed in the published source list.
#[derive(Debug, Clone)]
pub struct Source {
    pub label: String,
    pub value: String,
    pub is_aram: Option<bool>,
    pub is_urf: Option<bool>,
}

/// One provider's recommended configuration for a champion.
#[derive(Default, Debug, Clone, PartialEq)]
pub struct ChampData {
    pub index: u32,
    pub id: String,
    pub version: String,
    pub official_version: String,
    pub timestamp: u64,
    pub alias: String,
    pub name: String,
    pub position: String,
    pub skills: Option<Vec<String>>,
    pub spells: Option<Vec<String>>,
    pub item_builds: Vec<ItemBuild>,
    pub runes: Vec<Rune>,
}

/// One purchase-order recommendation; the unit that is written to a file.
#[derive(Default, Debug, Clone, PartialEq)]
pub struct ItemBuild {
    pub title: String,
    pub associated_maps: Vec<u32>,
    pub associated_champions: Vec<u32>,
    pub blocks: Vec<Block>,
    pub map: String,
    pub mode: String,
    pub sortrank: u32,
    pub started_from: String,
    pub type_field: String,
}

#[derive(Default, Debug, Clone, PartialEq)]
pub struct Block {
    pub type_field: String,
    pub items: Option<Vec<Item>>,
}

#[derive(Default, Debug, Clone, PartialEq)]
pub struct Item {
    pub id: String,
    pub count: u64,
}

/// A rune page. The score is a 64-bit float on the wire; it is carried
/// here as its IEEE 754 bit pattern, which loses nothing.
#[derive(Default, Debug, Clone, PartialEq)]
pub struct Rune {
    pub alias: String,
    pub name: String,
    pub position: String,
    pub pick_count: u64,
    pub win_rate: String,
    pub primary_style_id: u32,
    pub sub_style_id: u32,
    pub selected_perk_ids: Vec<u32>,
    pub score_bits: u64,
}

#[derive(Default, Debug, Clone, PartialEq)]
pub struct NpmInfo {
    pub name: String,
    pub version: String,
    pub source_version: String,
    pub description: String,
    pub main: String,
    pub dist_tags: DistTags,
}

#[derive(Default, Debug, Clone, PartialEq)]
pub struct DistTags {
    pub latest: String,
}

/// The champion catalog of one game version. `data` holds the entries
/// under their catalog keys, in the order in which they were handed over.
#[derive(Default, Debug, Clone, PartialEq)]
pub struct ChampListResp {
    pub type_field: String,
    pub format: String,
    pub version: String,
    pub data: Vec<(String, ChampInfo)>,
}

#[derive(Default, Debug, Clone, PartialEq)]
pub struct ChampInfo {
    pub version: String,
    pub id: String,
    pub key: String,
    pub name: String,
    pub title: String,
    pub image: Image,
    pub tags: Vec<String>,
}

#[derive(Default, Debug, Clone, PartialEq)]
pub struct Image {
    pub full: String,
    pub sprite: String,
    pub group: String,
    pub x: u32,
    pub y: u32,
    pub w: u32,
    pub h: u32,
}

impl ChampListResp {
    /// The catalog keys, in order.
    pub open spec fn keys(&self) -> Seq<Seq<char>> {
        Seq::new(self.data@.len(), |i: int| self.data@[i].0@)
    }

    /// No catalog key occurs twice.
    pub open spec fn keys_distinct(&self) -> bool {
        forall|i: int, j: int|
            0 <= i < j < self.data@.len() ==> self.data@[i].0@ != self.data@[j].0@
    }

    /// The catalog keys, in order.
    pub fn champion_keys(&self) -> (keys: Vec<String>)
        ensures
            keys@.len() == self.data@.len(),
            forall|i: int| 0 <= i < keys@.len() ==> (#[trigger] keys@[i])@ == self.keys()[i],
    {
        let mut keys: Vec<String> = Vec::new();
        let mut i: usize = 0;
        while i < self.data.len()
            invariant
                i <= self.data@.len(),
                keys@.len() == i,
                forall|k: int| 0 <= k < i ==> (#[trigger] keys@[k])@ == self.data@[k].0@,
            decreases self.data@.len() - i,
        {
            keys.push(self.data[i].0.clone());
            i = i + 1;
        }
        keys
    }

    /// Whether no catalog key occurs twice.
    pub fn has_distinct_keys(&self) -> (ok: bool)
        ensures
            ok == self.keys_distinct(),
    {
        let mut j: usize = 0;
        while j < self.data.len()
            invariant
                j <= self.data@.len(),
                forall|a: int, b: int| 0 <= a < b < j ==> self.data@[a].0@ != self.data@[b].0@,
            decreases self.data@.len() - j,
        {
            let mut i: usize = 0;
            while i < j
                invariant
                    i <= j < self.data@.len(),
                    forall|a: int| 0 <= a < i ==> self.data@[a].0@ != self.data@[j as int].0@,
                decreases j - i,
            {
                if self.data[i].0 == self.data[j].0 {
                    return false;
                }
                i = i + 1;
            }
            j = j + 1;
        }
        true
    }
}

/// The address of the published source list.
pub open spec fn source_list_url_spec() -> Seq<char> {
    CDN_JSDELIVR@ + "/gh/champ-r/source-list/index.json"@
}

/// The address of the build documents of one champion in one package.
pub open spec fn champ_detail_url_spec(
    source: Seq<char>,
    version: Seq<char>,
    champ_name: Seq<char>,
) -> Seq<char> {
    CDN_JSDELIVR@ + "/npm/"@ + source + "@"@ + version + "/"@ + champ_name + ".json"@
}

/// The address of the registry entry of a package.
pub open spec fn npm_info_url_spec(source: Seq<char>) -> Seq<char> {
    NPM_MIRROR@ + "/"@ + source + "/latest"@
}

/// The address of the list of game versions.
pub open spec fn version_list_url_spec() -> Seq<char> {
    CDN_DDRAGON@ + "/api/versions.json"@
}

/// The address of the champion catalog of a game version.
pub open spec fn champ_list_url_spec(version: Seq<char>) -> Seq<char> {
    CDN_DDRAGON@ + "/cdn/"@ + version + "/data/en_US/champion.json"@
}

pub fn source_list_url() -> (url: String)
    ensures
        url@ == source_list_url_spec(),
{
    let mut url = String::from_str(CDN_JSDELIVR);
    url.append("/gh/champ-r/source-list/index.json");
    url
}

pub fn champ_detail_url(source: &str, version: &str, champ_name: &str) -> (url: String)
    ensures
        url@ == champ_detail_url_spec(source@, version@, champ_name@),
{
    let mut url = String::from_str(CDN_JSDELIVR);
    url.append("/npm/");
    url.append(source);
    url.append("@");
    url.append(version);
    url.append("/");
    url.append(champ_name);
    url.append(".json");
    url
}

pub fn npm_info_url(source: &str) -> (url: String)
    ensures
        url@ == npm_info_url_spec(source@),
{
    let mut url = String::from_str(NPM_MIRROR);
    url.append("/");
    url.append(source);
    url.append("/latest");
    url
}

pub fn version_list_url() -> (url: String)
    ensures
        url@ == version_list_url_spec(),
{
    let mut url = String::from_str(CDN_DDRAGON);
    url.append("/api/versions.json");
    url
}

pub fn champ_list_url(version: &str) -> (url: String)
    ensures
        url@ == champ_list_url_spec(version@),
{
    let mut url = String::from_str(CDN_DDRAGON);
    url.append("/cdn/");
    url.append(version);
    url.append("/data/en_US/champion.json");
    url
}

} // verus!
