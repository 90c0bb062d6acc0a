use vstd::prelude::*;
use crate::json_ffi::{
    json_bool_field, json_get_bool, json_get_i64, json_get_string, json_get_u32, json_i64_field,
    json_str_field, json_u32_field,
};
use crate::lua_ffi::{
    lua_new_table, table_set_bool, table_set_i64, table_set_string,
};

verus! {

// Worker-side decoding of the serialized event snapshots the producers post.
// Each recognized event type has its own schema; a snapshot that does not
// match it is rejected as a whole and no listener runs.

/// A player joined the game.
pub struct PlayerJoinData {
    pub player_name: String,
    pub player_uuid: String,
    pub join_message: String,
}

/// A player left the game.
pub struct PlayerLeaveData {
    pub player_name: String,
    pub player_uuid: String,
    pub leave_message: String,
}

/// A player sent a chat message.
pub struct PlayerChatData {
    pub player_name: String,
    pub player_uuid: String,
    pub message: String,
    pub recipients: i64,
}

/// A block was placed.
pub struct BlockPlaceData {
    pub player_name: String,
    pub player_uuid: String,
    pub block_placed: String,
    pub block_against: String,
    pub can_build: bool,
}

/// A block was broken. The breaker can be absent (no player involved).
pub struct BlockBreakData {
    pub player_name: Option<String>,
    pub player_uuid: Option<String>,
    pub block_type: String,
    pub position_x: i32,
    pub position_y: i32,
    pub position_z: i32,
    pub experience: u32,
    pub drop_items: bool,
}

/// Decodes a player-joined snapshot: the three string fields are required.
pub fn decode_player_join(data: &str) -> (r: Option<PlayerJoinData>)
    ensures
        r matches Some(d) ==> json_str_field(data@, "player_name"@) == Some(d.player_name@)
            && json_str_field(data@, "player_uuid"@) == Some(d.player_uuid@) && json_str_field(
            data@,
            "join_message"@,
        ) == Some(d.join_message@),
        r is None ==> json_str_field(data@, "player_name"@) is None || json_str_field(
            data@,
            "player_uuid"@,
        ) is None || json_str_field(data@, "join_message"@) is None,
{
    let player_name = match json_get_string(data, "player_name") {
        Some(v) => v,
        None => {
            return None;
        },
    };
    let player_uuid = match json_get_string(data, "player_uuid") {
        Some(v) => v,
        None => {
            return None;
        },
    };
    let join_message = match json_get_string(data, "join_message") {
        Some(v) => v,
        None => {
            return None;
        },
    };
    Some(PlayerJoinData { player_name, player_uuid, join_message })
}

/// Decodes a player-left snapshot: the three string fields are required.
pub fn decode_player_leave(data: &str) -> (r: Option<PlayerLeaveData>)
    ensures
        r matches Some(d) ==> json_str_field(data@, "player_name"@) == Some(d.player_name@)
            && json_str_field(data@, "player_uuid"@) == Some(d.player_uuid@) && json_str_field(
            data@,
            "leave_message"@,
        ) == Some(d.leave_message@),
        r is None ==> json_str_field(data@, "player_name"@) is None || json_str_field(
            data@,
            "player_uuid"@,
        ) is None || json_str_field(data@, "leave_message"@) is None,
{
    let player_name = match json_get_string(data, "player_name") {
        Some(v) => v,
        None => {
            return None;
        },
    };
    let player_uuid = match json_get_string(data, "player_uuid") {
        Some(v) => v,
        None => {
            return None;
        },
    };
    let leave_message = match json_get_string(data, "leave_message") {
        Some(v) => v,
        None => {
            return None;
        },
    };
    Some(PlayerLeaveData { player_name, player_uuid, leave_message })
}

/// Decodes a chat snapshot: three strings and a non-negative recipient count.
pub fn decode_player_chat(data: &str) -> (r: Option<PlayerChatData>)
    ensures
        r matches Some(d) ==> json_str_field(data@, "player_name"@) == Some(d.player_name@)
            && json_str_field(data@, "player_uuid"@) == Some(d.player_uuid@) && json_str_field(
            data@,
            "message"@,
        ) == Some(d.message@) && json_i64_field(data@, "recipients"@) == Some(d.recipients)
            && d.recipients >= 0,
        r is None ==> json_str_field(data@, "player_name"@) is None || json_str_field(
            data@,
            "player_uuid"@,
        ) is None || json_str_field(data@, "message"@) is None || (match json_i64_field(
            data@,
            "recipients"@,
        ) {
            Some(n) => n < 0,
            None => true,
        }),
{
    let player_name = match json_get_string(data, "player_name") {
        Some(v) => v,
        None => {
            return None;
        },
    };
    let player_uuid = match json_get_string(data, "player_uuid") {
        Some(v) => v,
        None => {
            return None;
        },
    };
    let message = match json_get_string(data, "message") {
        Some(v) => v,
        None => {
            return None;
        },
    };
    let recipients = match json_get_i64(data, "recipients") {
        Some(n) => n,
        None => {
            return None;
        },
    };
    if recipients < 0 {
        return None;
    }
    Some(PlayerChatData { player_name, player_uuid, message, recipients })
}

/// Decodes a block-placed snapshot: four strings and a boolean, all required.
pub fn decode_block_place(data: &str) -> (r: Option<BlockPlaceData>)
    ensures
        r matches Some(d) ==> json_str_field(data@, "player_name"@) == Some(d.player_name@)
            && json_str_field(data@, "player_uuid"@) == Some(d.player_uuid@) && json_str_field(
            data@,
            "block_placed"@,
        ) == Some(d.block_placed@) && json_str_field(data@, "block_against"@) == Some(
            d.block_against@,
        ) && json_bool_field(data@, "can_build"@) == Some(d.can_build),
        r is None ==> json_str_field(data@, "player_name"@) is None || json_str_field(
            data@,
            "player_uuid"@,
        ) is None || json_str_field(data@, "block_placed"@) is None || json_str_field(
            data@,
            "block_against"@,
        ) is None || json_bool_field(data@, "can_build"@) is None,
{
    let player_name = match json_get_string(data, "player_name") {
        Some(v) => v,
        None => {
            return None;
        },
    };
    let player_uuid = match json_get_string(data, "player_uuid") {
        Some(v) => v,
        None => {
            return None;
        },
    };
    let block_placed = match json_get_string(data, "block_placed") {
        Some(v) => v,
        None => {
            return None;
        },
    };
    let block_against = match json_get_string(data, "block_against") {
        Some(v) => v,
        None => {
            return None;
        },
    };
    let can_build = match json_get_bool(data, "can_build") {
        Some(v) => v,
        None => {
            return None;
        },
    };
    Some(BlockPlaceData { player_name, player_uuid, block_placed, block_against, can_build })
}

/// Decodes a block-broken snapshot: the player fields are optional, the block
/// type, the three coordinates (which must fit in 32 bits), the experience and
/// the drop flag are required.
pub fn decode_block_break(data: &str) -> (r: Option<BlockBreakData>)
    ensures
        r matches Some(d) ==> (match d.player_name {
            Some(s) => json_str_field(data@, "player_name"@) == Some(s@),
            None => json_str_field(data@, "player_name"@) is None,
        }) && (match d.player_uuid {
            Some(s) => json_str_field(data@, "player_uuid"@) == Some(s@),
            None => json_str_field(data@, "player_uuid"@) is None,
        }) && json_str_field(data@, "block_type"@) == Some(d.block_type@) && json_i64_field(
            data@,
            "position_x"@,
        ) == Some(d.position_x as i64) && json_i64_field(data@, "position_y"@) == Some(
            d.position_y as i64,
        ) && json_i64_field(data@, "position_z"@) == Some(d.position_z as i64) && json_u32_field(
            data@,
            "experience"@,
        ) == Some(d.experience) && json_bool_field(data@, "drop_items"@) == Some(d.drop_items),
        r is None ==> json_str_field(data@, "block_type"@) is None || (match json_i64_field(
            data@,
            "position_x"@,
        ) {
            Some(n) => n < i32::MIN || n > i32::MAX,
            None => true,
        }) || (match json_i64_field(data@, "position_y"@) {
            Some(n) => n < i32::MIN || n > i32::MAX,
            None => true,
        }) || (match json_i64_field(data@, "position_z"@) {
            Some(n) => n < i32::MIN || n > i32::MAX,
            None => true,
        }) || json_u32_field(data@, "experience"@) is None || json_bool_field(
            data@,
            "drop_items"@,
        ) is None,
{
    let player_name = json_get_string(data, "player_name");
    let player_uuid = json_get_string(data, "player_uuid");
    let block_type = match json_get_string(data, "block_type") {
        Some(v) => v,
        None => {
            return None;
        },
    };
    let position_x = match read_coord(data, "position_x") {
        Some(v) => v,
        None => {
            return None;
        },
    };
    let position_y = match read_coord(data, "position_y") {
        Some(v) => v,
        None => {
            return None;
        },
    };
    let position_z = match read_coord(data, "position_z") {
        Some(v) => v,
        None => {
            return None;
        },
    };
    let experience = match json_get_u32(data, "experience") {
        Some(v) => v,
        None => {
            return None;
        },
    };
    let drop_items = match json_get_bool(data, "drop_items") {
        Some(v) => v,
        None => {
            return None;
        },
    };
    Some(
        BlockBreakData {
            player_name,
            player_uuid,
            block_type,
            position_x,
            position_y,
            position_z,
            experience,
            drop_items,
        },
    )
}

/// Reads one coordinate field, accepting only values that fit in 32 bits.
fn read_coord(data: &str, key: &str) -> (r: Option<i32>)
    ensures
        r matches Some(v) ==> json_i64_field(data@, key@) == Some(v as i64),
        r is None ==> (match json_i64_field(data@, key@) {
            Some(n) => n < i32::MIN || n > i32::MAX,
            None => true,
        }),
{
    let n = match json_get_i64(data, key) {
        Some(n) => n,
        None => {
            return None;
        },
    };
    if n < i32::MIN as i64 || n > i32::MAX as i64 {
        return None;
    }
    Some(n as i32)
}

// Each builder fills a fresh Lua table with exactly the schema's fields under
// the schema's names; the listeners of that event type receive the table.

pub fn build_player_join_table(lua: &mlua::Lua, d: &PlayerJoinData) -> (r: Result<
    mlua::Table,
    mlua::Error,
>) {
    let t = lua_new_table(lua)?;
    table_set_string(&t, "player_name", d.player_name.as_str())?;
    table_set_string(&t, "player_uuid", d.player_uuid.as_str())?;
    table_set_string(&t, "join_message", d.join_message.as_str())?;
    Ok(t)
}

pub fn build_player_leave_table(lua: &mlua::Lua, d: &PlayerLeaveData) -> (r: Result<
    mlua::Table,
    mlua::Error,
>) {
    let t = lua_new_table(lua)?;
    table_set_string(&t, "player_name", d.player_name.as_str())?;
    table_set_string(&t, "player_uuid", d.player_uuid.as_str())?;
    table_set_string(&t, "leave_message", d.leave_message.as_str())?;
    Ok(t)
}

pub fn build_player_chat_table(lua: &mlua::Lua, d: &PlayerChatData) -> (r: Result<
    mlua::Table,
    mlua::Error,
>) {
    let t = lua_new_table(lua)?;
    table_set_string(&t, "player_name", d.player_name.as_str())?;
    table_set_string(&t, "player_uuid", d.player_uuid.as_str())?;
    table_set_string(&t, "message", d.message.as_str())?;
    table_set_i64(&t, "recipients", d.recipients)?;
    Ok(t)
}

pub fn build_block_place_table(lua: &mlua::Lua, d: &BlockPlaceData) -> (r: Result<
    mlua::Table,
    mlua::Error,
>) {
    let t = lua_new_table(lua)?;
    table_set_string(&t, "player_name", d.player_name.as_str())?;
    table_set_string(&t, "player_uuid", d.player_uuid.as_str())?;
    table_set_string(&t, "block_placed", d.block_placed.as_str())?;
    table_set_string(&t, "block_against", d.block_against.as_str())?;
    table_set_bool(&t, "can_build", d.can_build)?;
    Ok(t)
}

pub fn build_block_break_table(lua: &mlua::Lua, d: &BlockBreakData) -> (r: Result<
    mlua::Table,
    mlua::Error,
>) {
    let t = lua_new_table(lua)?;
    if let Some(name) = &d.player_name {
        table_set_string(&t, "player_name", name.as_str())?;
    }
    if let Some(uuid) = &d.player_uuid {
        table_set_string(&t, "player_uuid", uuid.as_str())?;
    }
    table_set_string(&t, "block_type", d.block_type.as_str())?;
    table_set_i64(&t, "position_x", d.position_x as i64)?;
    table_set_i64(&t, "position_y", d.position_y as i64)?;
    table_set_i64(&t, "position_z", d.position_z as i64)?;
    table_set_i64(&t, "experience", d.experience as i64)?;
    table_set_bool(&t, "drop_items", d.drop_items)?;
    Ok(t)
}

} // verus!
