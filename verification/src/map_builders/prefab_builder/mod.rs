pub mod prefab_rooms;
