use std::sync::{Arc, Mutex};

use mlua::Lua;
use scriptkeys::config::{Config, Mapping};
use scriptkeys::device::{Action, Devices, Event};
use scriptkeys::errors::ScriptError;
use scriptkeys::script::helper::map_str_to_key;
use scriptkeys::script::{
    entry_point_name, find_script, script_search_paths, table_name_of, Script, ScriptSource,
};
use scriptkeys::{EnigoCommand, Key};

type Sink = Arc<Mutex<Vec<EnigoCommand>>>;

/// An interpreter whose `keyClick`, `keyDown` and `keyUp` record commands.
fn recording_lua() -> (Lua, Sink) {
    let lua = Lua::new();
    let sink: Sink = Arc::new(Mutex::new(Vec::new()));
    {
        let globals = lua.globals();
        for (name, kind) in [("keyClick", 0u8), ("keyDown", 1u8), ("keyUp", 2u8)] {
            let sink = sink.clone();
            let f = lua
                .create_function(move |_, key: String| {
                    if key.is_empty() {
                        return Err(mlua::Error::RuntimeError("empty key name".to_string()));
                    }
                    let key = map_str_to_key(&key);
                    let command = match kind {
                        0 => EnigoCommand::KeyClick(key),
                        1 => EnigoCommand::KeyDown(key),
                        _ => EnigoCommand::KeyUp(key),
                    };
                    sink.lock().unwrap().push(command);
                    Ok(())
                })
                .unwrap();
            globals.set(name, f).unwrap();
        }
    }
    (lua, sink)
}

fn mapping(key: u32, script: &str) -> Mapping {
    Mapping { key, script: script.to_string() }
}

fn table_script(table: &str, key: &str) -> String {
    format!(
        "{t} = {{}}\nfunction {t}.Press() keyClick(\"{k}\") end\nfunction {t}.Release() end\n",
        t = table,
        k = key
    )
}

#[test]
fn named_keys_map_to_their_designators() {
    assert_eq!(map_str_to_key("Alt"), Key::Alt);
    assert_eq!(map_str_to_key("F12"), Key::F12);
    assert_eq!(map_str_to_key("F20"), Key::F20);
    assert_eq!(map_str_to_key("Option"), Key::Option);
    assert_eq!(map_str_to_key("UpArrow"), Key::UpArrow);
}

#[test]
fn other_names_map_to_their_first_byte() {
    assert_eq!(map_str_to_key("A"), Key::Layout('A'));
    assert_eq!(map_str_to_key("abc"), Key::Layout('a'));
    assert_eq!(map_str_to_key("alt"), Key::Layout('a'));
    assert_eq!(map_str_to_key("\u{e9}"), Key::Layout('\u{c3}'));
}

#[test]
fn table_name_is_the_stem_of_the_last_component() {
    assert_eq!(table_name_of("macro_a.lua"), Some("macro_a".to_string()));
    assert_eq!(table_name_of("dir/x.y.lua"), Some("x.y".to_string()));
    assert_eq!(table_name_of("noext"), Some("noext".to_string()));
    assert_eq!(table_name_of(".hidden"), Some(".hidden".to_string()));
    assert_eq!(table_name_of("dir/"), None);
    assert_eq!(table_name_of(".."), None);
    assert_eq!(table_name_of(""), None);
}

#[test]
fn entry_points_name_the_action() {
    assert_eq!(entry_point_name("macro_a", Action::Press), "macro_a.Press");
    assert_eq!(entry_point_name("macro_a", Action::Release), "macro_a.Release");
}

#[test]
fn script_candidates_follow_the_roots() {
    assert_eq!(
        script_search_paths("m.lua", "/home/u"),
        vec!["./.scripts/m.lua", "/home/u/.scriptkeys/scripts/m.lua"]
    );
    assert_eq!(
        find_script("m.lua", "/home/u", &vec![false, true]),
        Some("/home/u/.scriptkeys/scripts/m.lua".to_string())
    );
    assert_eq!(find_script("m.lua", "/home/u", &vec![true, true]), Some("./.scripts/m.lua".to_string()));
    assert_eq!(find_script("m.lua", "/home/u", &vec![false, false]), None);
}

#[test]
fn routes_a_bound_press_and_drops_an_unbound_one() {
    let (lua, sink) = recording_lua();
    let mut script = Script::new(lua);
    script
        .load_script_mapping("./.scripts/macro_a.lua", &table_script("macro_a", "B"), &mapping(5, "macro_a.lua"))
        .unwrap();
    assert_eq!(script.resolve(5), Some("macro_a".to_string()));

    let routed = script.dispatch(&Event { key: 5, action: Action::Press }).unwrap();
    assert_eq!(routed, Some("macro_a.Press".to_string()));
    assert_eq!(*sink.lock().unwrap(), vec![EnigoCommand::KeyClick(Key::Layout('B'))]);

    let dropped = script.dispatch(&Event { key: 6, action: Action::Press }).unwrap();
    assert_eq!(dropped, None);
    assert_eq!(sink.lock().unwrap().len(), 1);
}

#[test]
fn press_reaches_the_sink_once_end_to_end() {
    let (lua, sink) = recording_lua();
    let mut script = Script::new(lua);
    let conf = Config { device: Devices::Dummy, mappings: vec![mapping(5, "macro_a.lua")] };
    let source = "macro_a = {}\nfunction macro_a.Press() keyClick(\"A\") end\nfunction macro_a.Release() keyClick(\"A\") end\n";
    let sources = vec![ScriptSource::Text("./.scripts/macro_a.lua".to_string(), source.to_string())];
    let outcomes = script.load_mapping(&conf, &sources);
    assert!(outcomes.iter().all(|o| o.is_ok()));

    script.dispatch(&Event { key: 5, action: Action::Press }).unwrap();
    assert_eq!(*sink.lock().unwrap(), vec![EnigoCommand::KeyClick(Key::Layout('A'))]);
}

#[test]
fn distinct_bindings_each_deliver_their_own_commands() {
    let (lua, sink) = recording_lua();
    let mut script = Script::new(lua);
    let keys = ["A", "B", "C", "D"];
    for (i, k) in keys.iter().enumerate() {
        let table = format!("m{}", i);
        let file = format!("{}.lua", table);
        script
            .load_script_mapping(&format!("./.scripts/{}", file), &table_script(&table, k), &mapping(i as u32 + 10, &file))
            .unwrap();
    }
    for i in [13u32, 10, 12, 11] {
        script.dispatch(&Event { key: i, action: Action::Press }).unwrap();
    }
    let mut got = sink.lock().unwrap().clone();
    assert_eq!(got.len(), 4);
    got.sort_by_key(|c| format!("{:?}", c));
    let mut want: Vec<EnigoCommand> =
        keys.iter().map(|k| EnigoCommand::KeyClick(Key::Layout(k.chars().next().unwrap()))).collect();
    want.sort_by_key(|c| format!("{:?}", c));
    assert_eq!(got, want);
}

#[test]
fn failed_reload_keeps_every_binding() {
    let (lua, sink) = recording_lua();
    let mut script = Script::new(lua);
    let path = "./.scripts/macro_a.lua";
    script.load_script_mapping(path, &table_script("macro_a", "A"), &mapping(5, "macro_a.lua")).unwrap();
    script.load_script_mapping(path, &table_script("macro_a", "A"), &mapping(7, "macro_a.lua")).unwrap();

    let outcome = script.load_script(path, "macro_a = {{{ broken");
    assert!(matches!(outcome, Err(ScriptError::Load(_, _))));
    assert_eq!(script.resolve(5), Some("macro_a".to_string()));
    assert_eq!(script.resolve(7), Some("macro_a".to_string()));

    script.dispatch(&Event { key: 7, action: Action::Press }).unwrap();
    assert_eq!(*sink.lock().unwrap(), vec![EnigoCommand::KeyClick(Key::Layout('A'))]);
}

#[test]
fn successful_reload_replaces_the_entry_points() {
    let (lua, sink) = recording_lua();
    let mut script = Script::new(lua);
    let path = "./.scripts/macro_a.lua";
    script.load_script_mapping(path, &table_script("macro_a", "A"), &mapping(5, "macro_a.lua")).unwrap();
    script.load_script(path, &table_script("macro_a", "Z")).unwrap();
    script.dispatch(&Event { key: 5, action: Action::Press }).unwrap();
    assert_eq!(*sink.lock().unwrap(), vec![EnigoCommand::KeyClick(Key::Layout('Z'))]);
}

#[test]
fn reload_of_an_unwatched_path_is_refused() {
    let (lua, _sink) = recording_lua();
    let mut script = Script::new(lua);
    assert!(!script.is_watched("./.scripts/x.lua"));
    let outcome = script.load_script("./.scripts/x.lua", "x = 1");
    assert!(matches!(outcome, Err(ScriptError::NotFound(_))));
}

#[test]
fn failed_load_binds_and_watches_nothing() {
    let (lua, _sink) = recording_lua();
    let mut script = Script::new(lua);
    let outcome = script.load_script_mapping("./.scripts/bad.lua", "this is not lua", &mapping(1, "bad.lua"));
    assert!(matches!(outcome, Err(ScriptError::Load(_, _))));
    assert_eq!(script.resolve(1), None);
    assert!(!script.is_watched("./.scripts/bad.lua"));

    let outcome = script.load_script_mapping("./.scripts/x", "x = 1", &mapping(1, "dir/"));
    assert!(matches!(outcome, Err(ScriptError::Load(_, _))));
    assert_eq!(script.resolve(1), None);
}

#[test]
fn load_mapping_collects_failures_and_loads_the_rest() {
    let (lua, _sink) = recording_lua();
    let mut script = Script::new(lua);
    let conf = Config {
        device: Devices::XK68JS,
        mappings: vec![
            mapping(1, "gone.lua"),
            mapping(2, "locked.lua"),
            mapping(3, "bad.lua"),
            mapping(4, "good.lua"),
            mapping(4, "later.lua"),
        ],
    };
    let sources = vec![
        ScriptSource::Missing,
        ScriptSource::Unreadable("./.scripts/locked.lua".to_string()),
        ScriptSource::Text("./.scripts/bad.lua".to_string(), "bad = (".to_string()),
        ScriptSource::Text("./.scripts/good.lua".to_string(), table_script("good", "G")),
        ScriptSource::Text("./.scripts/later.lua".to_string(), table_script("later", "L")),
    ];
    let outcomes = script.load_mapping(&conf, &sources);
    assert_eq!(outcomes.len(), 5);
    assert!(matches!(outcomes[0], Err(ScriptError::NotFound(_))));
    assert!(matches!(outcomes[1], Err(ScriptError::Load(_, _))));
    assert!(matches!(outcomes[2], Err(ScriptError::Load(_, _))));
    assert!(outcomes[3].is_ok());
    assert!(outcomes[4].is_ok());
    assert_eq!(script.resolve(1), None);
    assert_eq!(script.resolve(2), None);
    assert_eq!(script.resolve(3), None);
    assert_eq!(script.resolve(4), Some("later".to_string()));
    assert!(script.is_watched("./.scripts/good.lua"));
    assert!(script.is_watched("./.scripts/later.lua"));
    assert!(!script.is_watched("./.scripts/bad.lua"));
}

#[test]
fn script_error_in_an_entry_point_is_returned() {
    let (lua, _sink) = recording_lua();
    let mut script = Script::new(lua);
    let source = "oops = {}\nfunction oops.Press() error(\"boom\") end\n";
    script.load_script_mapping("./.scripts/oops.lua", source, &mapping(9, "oops.lua")).unwrap();
    let err = script.dispatch(&Event { key: 9, action: Action::Press }).unwrap_err();
    assert_eq!(err.entry, "oops.Press");
    assert!(err.detail.contains("boom"));
    let err = script.dispatch(&Event { key: 9, action: Action::Release }).unwrap_err();
    assert_eq!(err.entry, "oops.Release");
}

#[test]
fn unwatchable_script_is_not_bound() {
    let (lua, sink) = recording_lua();
    let mut script = Script::new(lua);
    let conf = Config { device: Devices::Dummy, mappings: vec![mapping(5, "macro_a.lua")] };
    let sources = vec![ScriptSource::Unwatchable("/s/macro_a.lua".to_string())];
    let outcomes = script.load_mapping(&conf, &sources);
    assert!(matches!(outcomes[0], Err(ScriptError::Watch(_))));
    assert_eq!(script.resolve(5), None);
    assert!(!script.is_watched("/s/macro_a.lua"));
    assert_eq!(script.dispatch(&Event { key: 5, action: Action::Press }).unwrap(), None);
    assert!(sink.lock().unwrap().is_empty());
}

#[test]
fn release_runs_the_release_entry_point() {
    let (lua, sink) = recording_lua();
    let mut script = Script::new(lua);
    let source = "m = {}\nfunction m.Press() keyDown(\"Shift\") end\nfunction m.Release() keyUp(\"Shift\") end\n";
    script.load_script_mapping("/s/m.lua", source, &mapping(3, "m.lua")).unwrap();
    assert_eq!(script.dispatch(&Event { key: 3, action: Action::Press }).unwrap(), Some("m.Press".to_string()));
    assert_eq!(script.dispatch(&Event { key: 3, action: Action::Release }).unwrap(), Some("m.Release".to_string()));
    assert_eq!(
        *sink.lock().unwrap(),
        vec![EnigoCommand::KeyDown(Key::Shift), EnigoCommand::KeyUp(Key::Shift)]
    );
}
