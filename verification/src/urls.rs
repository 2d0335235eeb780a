//! The request URLs of the remote identity service. Building them is pure
//! string work and is verified here; issuing the requests is the caller's.

use vstd::prelude::*;

verus! {

/// The lookup URL keyed by (name, tag), with the credential appended as a
/// query parameter. Components are inserted verbatim.
pub fn account_url_by_riot_id(game_name: &str, tag_line: &str, api_key: &str) -> (r: String)
    ensures
        r@ == "https://americas.api.riotgames.com/riot/account/v1/accounts/by-riot-id/"@
            + game_name@ + "/"@ + tag_line@ + "?api_key="@ + api_key@,
{
    let mut url = String::from_str(
        "https://americas.api.riotgames.com/riot/account/v1/accounts/by-riot-id/",
    );
    url.append(game_name);
    url.append("/");
    url.append(tag_line);
    url.append("?api_key=");
    url.append(api_key);
    proof {
        assert(url@ =~= "https://americas.api.riotgames.com/riot/account/v1/accounts/by-riot-id/"@
            + game_name@ + "/"@ + tag_line@ + "?api_key="@ + api_key@);
    }
    url
}

/// The lookup URL keyed by the stable account key, with the credential
/// appended as a query parameter. Components are inserted verbatim.
pub fn account_url_by_puuid(puuid: &str, api_key: &str) -> (r: String)
    ensures
        r@ == "https://americas.api.riotgames.com/riot/account/v1/accounts/by-puuid/"@ + puuid@
            + "?api_key="@ + api_key@,
{
    let mut url = String::from_str(
        "https://americas.api.riotgames.com/riot/account/v1/accounts/by-puuid/",
    );
    url.append(puuid);
    url.append("?api_key=");
    url.append(api_key);
    proof {
        assert(url@ =~= "https://americas.api.riotgames.com/riot/account/v1/accounts/by-puuid/"@
            + puuid@ + "?api_key="@ + api_key@);
    }
    url
}

} // verus!
