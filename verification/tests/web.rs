use champr::web::{
    champ_detail_url, champ_list_url, npm_info_url, source_list_url, version_list_url,
    CDN_DDRAGON, CDN_JSDELIVR, NPM_MIRROR,
};

#[test]
fn hosts() {
    assert_eq!(CDN_JSDELIVR, "https://cdn.jsdelivr.net");
    assert_eq!(NPM_MIRROR, "https://registry.npmmirror.com");
    assert_eq!(CDN_DDRAGON, "https://ddragon.leagueoflegends.com");
}

#[test]
fn address_of_the_source_list() {
    assert_eq!(source_list_url(), "https://cdn.jsdelivr.net/gh/champ-r/source-list/index.json");
}

#[test]
fn address_of_the_builds_of_a_champion() {
    assert_eq!(
        champ_detail_url("@champ-r/op.gg", "latest", "Ahri"),
        "https://cdn.jsdelivr.net/npm/@champ-r/op.gg@latest/Ahri.json"
    );
}

#[test]
fn address_of_a_package() {
    assert_eq!(
        npm_info_url("@champ-r/op.gg"),
        "https://registry.npmmirror.com/@champ-r/op.gg/latest"
    );
}

#[test]
fn address_of_the_version_list() {
    assert_eq!(version_list_url(), "https://ddragon.leagueoflegends.com/api/versions.json");
}

#[test]
fn address_of_the_catalog() {
    assert_eq!(
        champ_list_url("12.1.1"),
        "https://ddragon.leagueoflegends.com/cdn/12.1.1/data/en_US/champion.json"
    );
}
