use visigrid::lua::{
    count_lua_overwrites, extract_last_lua_block, script_dir, script_name, sheet_fingerprint,
    FilledCell, LuaOp, LAST_SCRIPT,
};

fn texts(v: &[&str]) -> Vec<String> {
    v.iter().map(|s| s.to_string()).collect()
}

fn filled(n: usize) -> Vec<FilledCell> {
    (0..n).map(|i| FilledCell { row: i, col: 1, raw: i.to_string() }).collect()
}

#[test]
fn the_last_closed_block_is_taken() {
    let reply = "first\n```lua\na = 1\n```\nthen\n  ```LUA  \nb = 2\n\nc = 3\n  ```\n```lua\nopen";
    assert_eq!(extract_last_lua_block(reply), Some("b = 2\n\nc = 3".to_string()));
    assert_eq!(extract_last_lua_block("```lua\n```"), None);
    assert_eq!(extract_last_lua_block("```python\nx\n```"), None);
    assert_eq!(extract_last_lua_block(""), None);
    assert_eq!(
        extract_last_lua_block("```lua\nx\n```lua\ny\n```"),
        Some("x\n```lua\ny".to_string())
    );
}

#[test]
fn scripts_have_their_place() {
    assert_eq!(
        script_dir(&Some("/w".to_string()), &None),
        texts(&["/w", "ai", "generated"])
    );
    assert_eq!(
        script_dir(&None, &Some("/home/me".to_string())),
        texts(&["/home/me", ".visigrid", "ai", "generated"])
    );
    assert_eq!(script_dir(&None, &None)[0], "/tmp");
    assert_eq!(script_name(1700), "model_1700.lua");
    assert_eq!(LAST_SCRIPT, "last.lua");
}

#[test]
fn a_fingerprint_notices_a_change() {
    let a = sheet_fingerprint("S", &filled(5));
    assert_eq!(a, sheet_fingerprint("S", &filled(5)));
    assert_ne!(a, sheet_fingerprint("T", &filled(5)));
    assert_ne!(a, sheet_fingerprint("S", &filled(6)));
    let mut changed = filled(5);
    changed[2].raw = "x".to_string();
    assert_ne!(a, sheet_fingerprint("S", &changed));
    assert_ne!(sheet_fingerprint("S", &vec![]), sheet_fingerprint("", &vec![]));
}

#[test]
fn a_large_sheet_goes_by_a_sample() {
    let a = sheet_fingerprint("S", &filled(1000));
    let mut head = filled(1000);
    head[19].raw = "x".to_string();
    assert_ne!(a, sheet_fingerprint("S", &head));
    let mut tail = filled(1000);
    tail[999].raw = "x".to_string();
    assert_ne!(a, sheet_fingerprint("S", &tail));
    // 20 + (1 * 960) / 88 == 30: this cell is looked at, and the one before is not.
    let mut middle = filled(1000);
    middle[30].raw = "x".to_string();
    assert_ne!(a, sheet_fingerprint("S", &middle));
    let mut between = filled(1000);
    between[29].raw = "x".to_string();
    assert_eq!(a, sheet_fingerprint("S", &between));
}

#[test]
fn overwrites_are_counted_once_for_each_cell() {
    let ops = vec![
        LuaOp::SetValue { row: 0, col: 0 },
        LuaOp::SetFormula { row: 0, col: 0 },
        LuaOp::SetValue { row: 1, col: 0 },
        LuaOp::Other,
        LuaOp::SetFormula { row: 0, col: 1 },
    ];
    assert_eq!(count_lua_overwrites(&ops, &vec![(0, 0), (0, 1), (5, 5)]), 2);
    assert_eq!(count_lua_overwrites(&ops, &vec![]), 0);
}
