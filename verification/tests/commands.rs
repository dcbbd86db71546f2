use httpie_oapi::command::api_spec::{ApiSpecCommands, ListArgs, RefreshArgs, RefreshStep, RemoveArgs, SaveArgs};
use httpie_oapi::command::param::ParamCommand;
use httpie_oapi::command::path::PathCommand;
use httpie_oapi::command::{CommandError, Outcome};
use httpie_oapi::openapi::api_spec::FetchEvent;
use httpie_oapi::openapi::endpoint::EndPoint;
use httpie_oapi::openapi::param::ParamSource;
use httpie_oapi::openapi::{EndPoints, Method, Param};
use httpie_oapi::Config;

fn param(name: &str, required: bool, source: ParamSource, description: Option<&str>) -> Param {
    Param { name: name.to_string(), required, source, description: description.map(String::from) }
}

fn endpoint(method: Method, path: &str, summary: Option<&str>, params: Vec<Param>) -> EndPoint {
    EndPoint { method, path: path.to_string(), summary: summary.map(String::from), params }
}

fn registry() -> Config {
    let mut config = Config::new();
    config.add_api("pets".to_string(), "https://p/spec".to_string(), "https://p".to_string());
    config.add_api("users".to_string(), "https://u/spec".to_string(), "https://u".to_string());
    config.get_endpoints(
        "pets",
        FetchEvent::Refreshed(EndPoints::new(vec![
            endpoint(Method::Get, "/pets", Some("List pets"), vec![]),
            endpoint(
                Method::Post,
                "/pets",
                None,
                vec![
                    param("tag", false, ParamSource::Body, None),
                    param("name", true, ParamSource::Body, Some("The name")),
                    param("nickname", false, ParamSource::Body, None),
                ],
            ),
        ])),
    );
    config.get_endpoints(
        "users",
        FetchEvent::Refreshed(EndPoints::new(vec![endpoint(Method::Get, "/users", None, vec![])])),
    );
    config
}

fn lines(outcome: Result<Outcome, CommandError>) -> Vec<String> {
    match outcome {
        Ok(Outcome::Lines(lines)) => lines,
        other => panic!("{:?}", other),
    }
}

fn path_command(name: Option<&str>, pattern: Option<&str>, fish: bool) -> PathCommand {
    PathCommand { name: name.map(String::from), pattern: pattern.map(String::from), fish, fzf: !fish }
}

fn param_command(name: &str, path: &str, pattern: Option<&str>) -> ParamCommand {
    ParamCommand {
        name: name.to_string(),
        path: path.to_string(),
        pattern: pattern.map(String::from),
        fish: false,
        fzf: false,
    }
}

#[test]
fn paths_of_one_api() {
    let config = registry();
    assert_eq!(
        lines(path_command(Some("pets"), None, false).run(&config)),
        vec!["GET https://p/pets", "POST https://p/pets"]
    );
    assert_eq!(
        lines(path_command(Some("pets"), None, true).run(&config)),
        vec!["https://p/pets\tList pets", "https://p/pets\t/pets"]
    );
}

#[test]
fn paths_of_all_apis() {
    let config = registry();
    assert_eq!(
        lines(path_command(None, None, false).run(&config)),
        vec!["GET https://p/pets", "POST https://p/pets", "GET https://u/users"]
    );
    assert_eq!(lines(path_command(None, Some("ser"), false).run(&config)), vec!["GET https://u/users"]);
    assert!(lines(path_command(None, Some("zzz"), true).run(&config)).is_empty());
    assert!(lines(path_command(None, None, false).run(&Config::new())).is_empty());
}

#[test]
fn paths_of_an_unknown_api() {
    let config = registry();
    let error = path_command(Some("cats"), None, false).run(&config).unwrap_err();
    assert_eq!(error, CommandError::ApiNotFound);
    assert_eq!(error.message("cats"), "API 'cats' not found");
}

#[test]
fn paths_need_known_endpoints() {
    let mut config = registry();
    config.add_api("new".to_string(), "https://n/spec".to_string(), "https://n".to_string());
    match path_command(None, None, false).run(&config) {
        Ok(Outcome::NeedsEndpoints(name)) => assert_eq!(name, "new"),
        other => panic!("{:?}", other),
    }
    match path_command(Some("new"), None, false).run(&config) {
        Ok(Outcome::NeedsEndpoints(name)) => assert_eq!(name, "new"),
        other => panic!("{:?}", other),
    }
    assert_eq!(lines(path_command(Some("users"), None, false).run(&config)), vec!["GET https://u/users"]);
    let api = config.get_api("users").unwrap();
    match path_command(None, Some("/u"), true).show_api_paths(api) {
        Outcome::Lines(lines) => assert_eq!(lines, vec!["https://u/users\t/users"]),
        other => panic!("{:?}", other),
    }
}

#[test]
fn params_of_the_first_endpoint_with_the_path() {
    let config = registry();
    assert!(lines(param_command("pets", "/pets", None).run(&config)).is_empty());
    let mut config = Config::new();
    config.add_api("pets".to_string(), "https://p/spec".to_string(), "https://p".to_string());
    config.get_endpoints(
        "pets",
        FetchEvent::Refreshed(EndPoints::new(vec![endpoint(
            Method::Post,
            "/pets",
            None,
            vec![
                param("tag", false, ParamSource::Body, None),
                param("name", true, ParamSource::Body, Some("The name")),
                param("nickname", false, ParamSource::Query, None),
            ],
        )])),
    );
    assert_eq!(
        lines(param_command("pets", "/pets", None).run(&config)),
        vec!["name=\tThe name", "tag=\t[tag]", "nickname==\t[nickname]"]
    );
    assert_eq!(
        lines(param_command("pets", "/pets", Some("name")).run(&config)),
        vec!["name=\tThe name", "nickname==\t[nickname]"]
    );
    assert!(lines(param_command("pets", "/pets", Some("zzz")).run(&config)).is_empty());
}

#[test]
fn params_errors() {
    let mut config = registry();
    let error = param_command("cats", "/pets", None).run(&config).unwrap_err();
    assert_eq!(error, CommandError::ApiNotFound);
    let error = param_command("pets", "/pet", None).run(&config).unwrap_err();
    assert_eq!(error, CommandError::NoEndpointMatched);
    assert_eq!(error.message("/pet"), "No endpoint matched path '/pet'");
    config.add_api("new".to_string(), "https://n/spec".to_string(), "https://n".to_string());
    match param_command("new", "/pets", None).run(&config) {
        Ok(Outcome::NeedsEndpoints(name)) => assert_eq!(name, "new"),
        other => panic!("{:?}", other),
    }
}

#[test]
fn filter_params_by_name() {
    let params = vec![
        param("tag", false, ParamSource::Body, None),
        param("name", true, ParamSource::Body, None),
        param("nickname", false, ParamSource::Body, None),
    ];
    let kept = ParamCommand::filter_params(&params, &Some("na".to_string()));
    let names: Vec<&str> = kept.iter().map(|p| p.name.as_str()).collect();
    assert_eq!(names, vec!["name", "nickname"]);
    assert_eq!(ParamCommand::filter_params(&params, &None).len(), 3);
    assert_eq!(ParamCommand::filter_params(&params, &Some("".to_string())).len(), 3);
}

fn save_args(name: &str, force: bool) -> SaveArgs {
    SaveArgs {
        name: name.to_string(),
        spec_url: format!("https://{}/new", name),
        base_url: format!("https://{}.new", name),
        force,
    }
}

#[test]
fn adding_a_new_api() {
    let mut config = registry();
    let args = save_args("cats", false);
    assert_eq!(ApiSpecCommands::check_save(&args, &config), Ok(()));
    let said = ApiSpecCommands::save_server(&args, &mut config).unwrap();
    assert_eq!(said, "Added API 'cats' successfully");
    let cats = config.get_api("cats").unwrap();
    assert_eq!(cats.spec_url, "https://cats/new");
    assert_eq!(cats.base_url, "https://cats.new");
    assert_eq!(config.list_apis().len(), 3);
}

#[test]
fn adding_a_taken_name_needs_force() {
    let mut config = registry();
    let args = save_args("pets", false);
    assert_eq!(ApiSpecCommands::check_save(&args, &config), Err(CommandError::AlreadyExists));
    let error = ApiSpecCommands::save_server(&args, &mut config).unwrap_err();
    assert_eq!(error, CommandError::AlreadyExists);
    assert_eq!(error.message("pets"), "Error: API 'pets' already exists. Use --force to overwrite.");
    assert_eq!(config.get_api("pets").unwrap().spec_url, "https://p/spec");

    let forced = save_args("pets", true);
    assert_eq!(ApiSpecCommands::check_save(&forced, &config), Ok(()));
    let said = ApiSpecCommands::save_server(&forced, &mut config).unwrap();
    assert_eq!(said, "Updated API 'pets' successfully");
    assert_eq!(config.get_api("pets").unwrap().spec_url, "https://pets/new");
    assert_eq!(config.list_apis().len(), 2);

    let forced_new = save_args("dogs", true);
    assert_eq!(ApiSpecCommands::save_server(&forced_new, &mut config).unwrap(), "Updated API 'dogs' successfully");
}

#[test]
fn removing_by_command() {
    let mut config = registry();
    let said = ApiSpecCommands::remove_server(&RemoveArgs { name: "pets".to_string() }, &mut config).unwrap();
    assert_eq!(said, "Removed API 'pets' successfully");
    assert!(config.get_api("pets").is_none());
    let error = ApiSpecCommands::remove_server(&RemoveArgs { name: "pets".to_string() }, &mut config).unwrap_err();
    assert_eq!(error, CommandError::ApiNotFound);
    assert_eq!(config.list_apis().len(), 1);
}

#[test]
fn listing_the_registry() {
    let config = registry();
    assert_eq!(
        ApiSpecCommands::list_server(&ListArgs { detailed: false }, &config, "/home/u"),
        vec!["pets\thttps://p/spec", "users\thttps://u/spec"]
    );
    assert_eq!(
        ApiSpecCommands::list_server(&ListArgs { detailed: true }, &config, "/home/u"),
        vec![
            "Name: pets",
            "SPEC URL: https://p/spec",
            "Base URL: https://p",
            "Cache: /home/u/.cache/httpie-oapi/pets.json",
            "",
            "Name: users",
            "SPEC URL: https://u/spec",
            "Base URL: https://u",
            "Cache: /home/u/.cache/httpie-oapi/users.json",
            "",
        ]
    );
    for detailed in [false, true] {
        assert_eq!(
            ApiSpecCommands::list_server(&ListArgs { detailed }, &Config::new(), "/home/u"),
            vec!["No APIs registered"]
        );
    }
}

fn steps(found: &[RefreshStep]) -> Vec<(String, bool)> {
    found.iter().map(|s| (s.name.clone(), s.found)).collect()
}

#[test]
fn refreshing_named_or_all_apis() {
    let config = registry();
    let all = ApiSpecCommands::refresh_server(&RefreshArgs { names: vec![] }, &config);
    assert_eq!(steps(&all), vec![("pets".to_string(), true), ("users".to_string(), true)]);
    let named = ApiSpecCommands::refresh_server(
        &RefreshArgs { names: vec!["users".to_string(), "cats".to_string(), "users".to_string()] },
        &config,
    );
    assert_eq!(
        steps(&named),
        vec![("users".to_string(), true), ("cats".to_string(), false), ("users".to_string(), true)]
    );
    assert_eq!(ApiSpecCommands::refresh_message(&named[0]), "Refreshed cache for API 'users' successfully");
    assert_eq!(ApiSpecCommands::refresh_message(&named[1]), "Warning: API 'cats' not found, skipping");
    assert!(ApiSpecCommands::refresh_server(&RefreshArgs { names: vec![] }, &Config::new()).is_empty());
}

#[test]
fn errors_of_the_listings_in_words() {
    let command = param_command("pets", "/pet", None);
    assert_eq!(command.error_message(CommandError::ApiNotFound), "API 'pets' not found");
    assert_eq!(command.error_message(CommandError::NoEndpointMatched), "No endpoint matched path '/pet'");
    assert_eq!(
        command.error_message(CommandError::AlreadyExists),
        "Error: API 'pets' already exists. Use --force to overwrite."
    );
    let named = path_command(Some("cats"), None, false);
    assert_eq!(named.error_message(CommandError::ApiNotFound), "API 'cats' not found");
    let unnamed = path_command(None, None, false);
    assert_eq!(unnamed.error_message(CommandError::ApiNotFound), "API '' not found");
}
